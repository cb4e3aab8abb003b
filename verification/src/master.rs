//! The master object: the hosts it listens on and the view templates,
//! whose `$(key)` placeholders are filled in from a context.
use vstd::prelude::*;
use crate::text::{push_str, push_u64, string_of, str_replace, replace_all, nat_digits};
use crate::util::{Keyed, key_get, key_in, keys_unique, get_key, put_key};

verus! {

/// A view: a name and a template.
#[derive(Debug)]
pub struct ViewTemplate {
    pub name: String,
    pub template: String,
}

impl Keyed for ViewTemplate {
    open spec fn key_view(&self) -> Seq<char> {
        self.name@
    }

    fn key(&self) -> (r: &String) {
        &self.name
    }
}

/// `tpl` with, for each pair of `ctx` in order, every `$(key)` replaced by
/// the value's text.
pub open spec fn render_text(tpl: Seq<char>, ctx: Seq<(String, String)>) -> Seq<char>
    decreases ctx.len(),
{
    if ctx.len() == 0 {
        tpl
    } else {
        replace_all(render_text(tpl, ctx.drop_last()), "$("@ + ctx.last().0@ + ")"@, ctx.last().1@)
    }
}

impl ViewTemplate {
    /// A view named `name` with `template`.
    pub fn new(name: String, template: String) -> (r: Self)
        ensures
            r == (ViewTemplate { name, template }),
    {
        ViewTemplate { name, template }
    }

    /// The template with the context's values put in place of their
    /// `$(key)` placeholders, one pair after the other (see
    /// `render_text`); each value comes as its text.
    pub fn render(&self, context: &Vec<(String, String)>) -> (r: String)
        ensures
            r@ == render_text(self.template@, context@),
    {
        proof {
            reveal_strlit("$(");
        }
        let mut result = self.template.clone();
        let mut i: usize = 0;
        while i < context.len()
            invariant
                i <= context@.len(),
                result@ == render_text(self.template@, context@.take(i as int)),
            decreases context.len() - i,
        {
            assert(context@.take(i as int + 1).drop_last() == context@.take(i as int));
            assert(context@.take(i as int + 1).last() == context@[i as int]);
            proof {
                reveal_strlit("$(");
            }
            let mut placeholder = string_of("$(");
            push_str(&mut placeholder, context[i].0.as_str());
            push_str(&mut placeholder, ")");
            let next = str_replace(result.as_str(), placeholder.as_str(), context[i].1.as_str());
            result = next;
            i = i + 1;
        }
        assert(context@.take(context@.len() as int) == context@);
        result
    }
}

/// The master: its hosts, address, port and views, one per name.
#[derive(Debug)]
pub struct Master {
    pub hosts_list: Vec<String>,
    pub ip: String,
    pub port: u16,
    pub views: Vec<ViewTemplate>,
}

/// The template of view `name`.
pub open spec fn view_of(m: Master, name: Seq<char>) -> Option<Seq<char>> {
    match key_get(m.views@, name) {
        Some(v) => Some(v.template@),
        None => None,
    }
}

/// The template of the `/hp` view.
pub open spec fn hp_template() -> Seq<char> {
    "生命：$(jing)/$(jing_max)\n精神：$(shen)/$(shen_max)\n内力：$(qi)/$(qi_max)\n"@
}

/// The template of the `/options` view.
pub open spec fn options_template() -> Seq<char> {
    "[我的帮派:mybang][身体情况:hp][技能设定:skills][修炼内力:exercise]\n"@
}

impl Master {
    /// A master at `ip` listening on all hosts at `port`, without views.
    pub fn new(ip: String, port: u16) -> (r: Self)
        ensures
            r.hosts_list@.len() == 1 && r.hosts_list@[0]@ == "0.0.0.0:"@ + nat_digits(port as nat),
            r.ip == ip && r.port == port && r.views@.len() == 0,
    {
        let mut host = string_of("0.0.0.0:");
        push_u64(&mut host, port as u64);
        let mut hosts_list: Vec<String> = Vec::new();
        hosts_list.push(host);
        Master { hosts_list, ip, port, views: Vec::new() }
    }

    /// One view per name.
    pub open spec fn wf(&self) -> bool {
        keys_unique(self.views@)
    }

    /// Adds the `/hp` and `/options` views.
    pub fn init_views(&mut self)
        requires
            old(self).wf(),
        ensures
            final(self).wf(),
            view_of(*final(self), "/hp"@) == Some(hp_template()),
            view_of(*final(self), "/options"@) == Some(options_template()),
            forall|k: Seq<char>| k != "/hp"@ && k != "/options"@ ==> #[trigger] view_of(*final(self), k) == view_of(*old(self), k),
            final(self).hosts_list@ == old(self).hosts_list@ && final(self).ip == old(self).ip && final(self).port == old(self).port,
    {
        let ghost o = *self;
        put_key(&mut self.views, ViewTemplate::new(string_of("/hp"),
            string_of("生命：$(jing)/$(jing_max)\n精神：$(shen)/$(shen_max)\n内力：$(qi)/$(qi_max)\n")));
        let ghost mid = *self;
        put_key(&mut self.views, ViewTemplate::new(string_of("/options"),
            string_of("[我的帮派:mybang][身体情况:hp][技能设定:skills][修炼内力:exercise]\n")));
        proof {
            reveal_strlit("/hp");
            reveal_strlit("/options");
            assert("/hp"@ != "/options"@) by {
                assert("/hp"@.len() != "/options"@.len());
            }
            assert(key_get(self.views@, "/hp"@) == key_get(mid.views@, "/hp"@));
            assert forall|k: Seq<char>| k != "/hp"@ && k != "/options"@ implies #[trigger] view_of(*self, k) == view_of(o, k) by {
                assert(key_get(self.views@, k) == key_get(mid.views@, k));
                assert(key_get(mid.views@, k) == key_get(o.views@, k));
            }
        }
    }

    /// The view named `name`.
    pub fn get_view(&self, name: &str) -> (r: Option<&ViewTemplate>)
        ensures
            r matches Some(v) ==> view_of(*self, name@) == Some(v.template@) && v.name@ == name@,
            r is None <==> view_of(*self, name@) is None,
    {
        let r = get_key(&self.views, name);
        proof {
            crate::util::lemma_key_get_in(self.views@, name@);
        }
        r
    }
}

} // verus!
