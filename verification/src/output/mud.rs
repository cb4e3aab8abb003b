//! MUD text formatting: colour codes written as `§x`, hyperlinks written as
//! `[text:command]`, and the conversion of colour codes to HTML spans.
use vstd::prelude::*;
use crate::text::{push_char, push_str, chars_of, string_of};

verus! {

/// The colours of the MUD colour code system.
#[derive(Debug, Clone, Copy, PartialEq, Eq, Structural)]
pub enum MudColor {
    Black,
    Red,
    Green,
    Yellow,
    Blue,
    Magenta,
    Cyan,
    White,
    DarkGray,
    BrightRed,
    BrightGreen,
    BrightYellow,
    BrightBlue,
    BrightMagenta,
    BrightCyan,
    BrightWhite,
    Normal,
}

/// The colour code of a colour.
pub open spec fn color_code(c: MudColor) -> Seq<char> {
    match c {
        MudColor::Black => "§k"@,
        MudColor::Red => "§R"@,
        MudColor::Green => "§G"@,
        MudColor::Yellow => "§Y"@,
        MudColor::Blue => "§B"@,
        MudColor::Magenta => "§M"@,
        MudColor::Cyan => "§C"@,
        MudColor::White => "§W"@,
        MudColor::DarkGray => "§b"@,
        MudColor::BrightRed => "§r"@,
        MudColor::BrightGreen => "§g"@,
        MudColor::BrightYellow => "§y"@,
        MudColor::BrightBlue => "§u"@,
        MudColor::BrightMagenta => "§m"@,
        MudColor::BrightCyan => "§c"@,
        MudColor::BrightWhite => "§w"@,
        MudColor::Normal => "§N"@,
    }
}

/// The HTML colour of a colour.
pub open spec fn color_html(c: MudColor) -> Seq<char> {
    match c {
        MudColor::Black => "#000000"@,
        MudColor::Red => "#FF0000"@,
        MudColor::Green => "#00FF00"@,
        MudColor::Yellow => "#FFFF00"@,
        MudColor::Blue => "#0000FF"@,
        MudColor::Magenta => "#FF00FF"@,
        MudColor::Cyan => "#00FFFF"@,
        MudColor::White => "#FFFFFF"@,
        MudColor::DarkGray => "#808080"@,
        MudColor::BrightRed => "#FF8080"@,
        MudColor::BrightGreen => "#80FF80"@,
        MudColor::BrightYellow => "#FFFF80"@,
        MudColor::BrightBlue => "#8080FF"@,
        MudColor::BrightMagenta => "#FF80FF"@,
        MudColor::BrightCyan => "#80FFFF"@,
        MudColor::BrightWhite => "#FFFFFF"@,
        MudColor::Normal => "#FFFFFF"@,
    }
}

/// The colour that the character after a `§` selects.
pub open spec fn color_of_char(c: char) -> MudColor {
    if c == 'k' {
        MudColor::Black
    } else if c == 'R' {
        MudColor::Red
    } else if c == 'G' {
        MudColor::Green
    } else if c == 'Y' {
        MudColor::Yellow
    } else if c == 'B' {
        MudColor::Blue
    } else if c == 'M' {
        MudColor::Magenta
    } else if c == 'C' {
        MudColor::Cyan
    } else if c == 'W' {
        MudColor::White
    } else if c == 'b' {
        MudColor::DarkGray
    } else if c == 'r' {
        MudColor::BrightRed
    } else if c == 'g' {
        MudColor::BrightGreen
    } else if c == 'y' {
        MudColor::BrightYellow
    } else if c == 'u' {
        MudColor::BrightBlue
    } else if c == 'm' {
        MudColor::BrightMagenta
    } else if c == 'c' {
        MudColor::BrightCyan
    } else if c == 'w' {
        MudColor::BrightWhite
    } else {
        MudColor::Normal
    }
}

/// A text wrapped in a colour code and the reset code.
pub open spec fn colored(text: Seq<char>, c: MudColor) -> Seq<char> {
    color_code(c) + text + color_code(MudColor::Normal)
}

/// A hyperlink in MUD form: `[text:command]`.
pub open spec fn link_text(text: Seq<char>, command: Seq<char>) -> Seq<char> {
    "["@ + text + ":"@ + command + "]"@
}

/// The opening span tag for a colour.
pub open spec fn span_open(c: MudColor) -> Seq<char> {
    "<span style=\"color:"@ + color_html(c) + "\">"@
}

/// The closing span tag when a colour is open, nothing otherwise.
pub open spec fn span_close(cur: MudColor) -> Seq<char> {
    if cur != MudColor::Normal {
        "</span>"@
    } else {
        Seq::<char>::empty()
    }
}

/// The HTML rendering of `s` when the colour `cur` is open: plain characters
/// are kept, `§x` closes the open span and, unless `x` selects the normal
/// colour, opens a span of the new colour; a `§` at the very end is dropped;
/// an open span is closed at the end.
pub open spec fn html_from(s: Seq<char>, cur: MudColor) -> Seq<char>
    decreases s.len(),
{
    if s.len() == 0 {
        span_close(cur)
    } else if s[0] == '§' {
        if s.len() == 1 {
            span_close(cur)
        } else {
            let nc = color_of_char(s[1]);
            if nc != MudColor::Normal {
                span_close(cur) + span_open(nc) + html_from(s.subrange(2, s.len() as int), nc)
            } else {
                span_close(cur) + html_from(s.subrange(2, s.len() as int), MudColor::Normal)
            }
        }
    } else {
        seq![s[0]] + html_from(s.subrange(1, s.len() as int), cur)
    }
}

/// Text without colour codes comes out of the HTML rendering unchanged.
pub proof fn lemma_plain_text_unchanged(s: Seq<char>)
    requires
        !s.contains('§'),
    ensures
        html_from(s, MudColor::Normal) == s,
    decreases s.len(),
{
    if s.len() > 0 {
        assert(s[0] != '§') by { assert(s.contains(s[0])); }
        let rest = s.subrange(1, s.len() as int);
        assert(!rest.contains('§')) by {
            if rest.contains('§') {
                let k = choose|k: int| 0 <= k < rest.len() && rest[k] == '§';
                assert(s[k + 1] == '§');
            }
        }
        lemma_plain_text_unchanged(rest);
        assert(seq![s[0]] + rest =~= s);
    }
}

/// `t` reads as text with spans that never nest: outside a span a span tag
/// can only open one (`<span style="color:…">`), inside one only close it
/// (`</span>`), and at the end none is open; any other character, a `<`
/// that begins no span tag among them, is text.
pub open spec fn spans_balanced(t: Seq<char>, open: bool) -> bool
    decreases t.len(),
{
    if t.len() == 0 {
        !open
    } else if t[0] == '<' && t.len() >= 7 && t.subrange(0, 7) == "</span>"@ {
        open && spans_balanced(t.subrange(7, t.len() as int), false)
    } else if t[0] == '<' && t.len() >= 28 && t.subrange(0, 19) == "<span style=\"color:"@ && t[27] == '>' {
        !open && spans_balanced(t.subrange(28, t.len() as int), true)
    } else {
        spans_balanced(t.subrange(1, t.len() as int), open)
    }
}

proof fn lemma_balanced_close(x: Seq<char>)
    ensures
        spans_balanced("</span>"@ + x, true) == spans_balanced(x, false),
{
    reveal_strlit("</span>");
    let t = "</span>"@ + x;
    assert(t[0] == '<');
    assert(t.subrange(0, 7) =~= "</span>"@);
    assert(t.subrange(7, t.len() as int) =~= x);
}

proof fn lemma_balanced_open(c: MudColor, x: Seq<char>)
    ensures
        spans_balanced(span_open(c) + x, false) == spans_balanced(x, true),
{
    reveal_strlit("<span style=\"color:");
    reveal_strlit("\">");
    reveal_strlit("#000000");
    reveal_strlit("#FF0000");
    reveal_strlit("#00FF00");
    reveal_strlit("#FFFF00");
    reveal_strlit("#0000FF");
    reveal_strlit("#FF00FF");
    reveal_strlit("#00FFFF");
    reveal_strlit("#FFFFFF");
    reveal_strlit("#808080");
    reveal_strlit("#FF8080");
    reveal_strlit("#80FF80");
    reveal_strlit("#FFFF80");
    reveal_strlit("#8080FF");
    reveal_strlit("#FF80FF");
    reveal_strlit("#80FFFF");
    assert(color_html(c).len() == 7);
    let t = span_open(c) + x;
    assert(span_open(c).len() == 28);
    assert(t[0] == '<');
    assert(t.subrange(0, 7) != "</span>"@) by {
        reveal_strlit("</span>");
        assert(t.subrange(0, 7)[1] == 's');
    }
    assert(t.subrange(0, 19) =~= "<span style=\"color:"@);
    assert(t[27] == span_open(c)[27]);
    assert(t[27] == '>');
    assert(t.subrange(28, t.len() as int) =~= x);
}

/// Each `<` of `s` is its last character or is followed by one that can
/// go on neither into a span tag nor into a colour code: not `/`, `s` or
/// `§`. Such a `<` is plain text in what `html_from` writes.
pub open spec fn lt_plain(s: Seq<char>) -> bool {
    forall|i: int| 0 <= i < s.len() && #[trigger] s[i] == '<' ==> i + 1 == s.len()
        || (s[i + 1] != '/' && s[i + 1] != 's' && s[i + 1] != '§')
}

proof fn lemma_lt_plain_skip(s: Seq<char>, k: int)
    requires
        lt_plain(s),
        0 <= k <= s.len(),
    ensures
        lt_plain(s.subrange(k, s.len() as int)),
{
    let r = s.subrange(k, s.len() as int);
    assert forall|i: int| 0 <= i < r.len() && #[trigger] r[i] == '<' implies i + 1 == r.len()
        || (r[i + 1] != '/' && r[i + 1] != 's' && r[i + 1] != '§') by {
        assert(s[i + k] == '<');
    }
}

/// Where `s` starts with a plain `<` (see `lt_plain`), the rendering starts
/// with that `<` followed by a character that is neither `/` nor `s`.
proof fn lemma_plain_lt_head(s: Seq<char>, cur: MudColor)
    requires
        lt_plain(s),
        s.len() > 0,
        s[0] == '<',
    ensures
        html_from(s, cur) == seq!['<'] + html_from(s.subrange(1, s.len() as int), cur),
        html_from(s, cur).len() > 1 ==> html_from(s, cur)[1] != '/' && html_from(s, cur)[1] != 's',
{
    reveal_strlit("</span>");
    let rest = s.subrange(1, s.len() as int);
    let t = html_from(s, cur);
    assert(t == seq![s[0]] + html_from(rest, cur));
    if rest.len() == 0 {
        assert(html_from(rest, cur) == span_close(cur));
    } else {
        assert(s[0] == '<');
        assert(s[1] != '§');
        assert(rest[0] == s[1]);
        assert(html_from(rest, cur) == seq![rest[0]] + html_from(rest.subrange(1, rest.len() as int), cur));
        assert(t[1] == s[1]);
    }
}

/// Text whose every `<` is plain (see `lt_plain`) renders (see
/// `html_from`) into text whose colour spans never nest and are all closed:
/// each span tag of the result opens a span where none is open, or closes
/// the open one.
pub proof fn lemma_spans_balanced(s: Seq<char>, cur: MudColor)
    requires
        lt_plain(s),
    ensures
        spans_balanced(html_from(s, cur), cur != MudColor::Normal),
    decreases s.len(),
{
    if s.len() == 0 || (s[0] == '§' && s.len() == 1) {
        if cur != MudColor::Normal {
            lemma_balanced_close(Seq::<char>::empty());
            assert("</span>"@ + Seq::<char>::empty() =~= "</span>"@);
        }
    } else if s[0] == '§' {
        let rest = s.subrange(2, s.len() as int);
        lemma_lt_plain_skip(s, 2);
        let nc = color_of_char(s[1]);
        if nc != MudColor::Normal {
            lemma_spans_balanced(rest, nc);
            lemma_balanced_open(nc, html_from(rest, nc));
            if cur != MudColor::Normal {
                lemma_balanced_close(span_open(nc) + html_from(rest, nc));
                assert(span_close(cur) + span_open(nc) + html_from(rest, nc) =~= "</span>"@ + (span_open(nc) + html_from(rest, nc)));
            } else {
                assert(span_close(cur) + span_open(nc) + html_from(rest, nc) =~= span_open(nc) + html_from(rest, nc));
            }
        } else {
            lemma_spans_balanced(rest, MudColor::Normal);
            if cur != MudColor::Normal {
                lemma_balanced_close(html_from(rest, MudColor::Normal));
            } else {
                assert(span_close(cur) + html_from(rest, MudColor::Normal) =~= html_from(rest, MudColor::Normal));
            }
        }
    } else {
        let rest = s.subrange(1, s.len() as int);
        lemma_lt_plain_skip(s, 1);
        lemma_spans_balanced(rest, cur);
        let t = seq![s[0]] + html_from(rest, cur);
        assert(t.subrange(1, t.len() as int) =~= html_from(rest, cur));
        if s[0] == '<' {
            lemma_plain_lt_head(s, cur);
            reveal_strlit("</span>");
            reveal_strlit("<span style=\"color:");
            if t.len() >= 7 {
                assert(t.subrange(0, 7) != "</span>"@) by { assert(t.subrange(0, 7)[1] == t[1]); }
            }
            if t.len() >= 28 {
                assert(t.subrange(0, 19) != "<span style=\"color:"@) by { assert(t.subrange(0, 19)[1] == t[1]); }
            }
        }
    }
}

/// `s` with its colour codes taken out: each `§` and the character after
/// it, read from the left.
pub open spec fn strip_codes(s: Seq<char>) -> Seq<char>
    decreases s.len(),
{
    if s.len() == 0 {
        s
    } else if s[0] == '§' {
        if s.len() == 1 { Seq::<char>::empty() } else { strip_codes(s.subrange(2, s.len() as int)) }
    } else {
        seq![s[0]] + strip_codes(s.subrange(1, s.len() as int))
    }
}

/// `t` with its span tags taken out: each `</span>` and each
/// `<span style="color:…">` of the length the rendering writes, read from
/// the left; every other character is kept.
pub open spec fn untag(t: Seq<char>) -> Seq<char>
    decreases t.len(),
{
    if t.len() == 0 {
        t
    } else if t[0] == '<' && t.len() >= 7 && t.subrange(0, 7) == "</span>"@ {
        untag(t.subrange(7, t.len() as int))
    } else if t[0] == '<' && t.len() >= 28 && t.subrange(0, 19) == "<span style=\"color:"@ && t[27] == '>' {
        untag(t.subrange(28, t.len() as int))
    } else {
        seq![t[0]] + untag(t.subrange(1, t.len() as int))
    }
}

proof fn lemma_untag_close(x: Seq<char>)
    ensures
        untag("</span>"@ + x) == untag(x),
{
    reveal_strlit("</span>");
    let t = "</span>"@ + x;
    assert(t[0] == '<');
    assert(t.subrange(0, 7) =~= "</span>"@);
    assert(t.subrange(7, t.len() as int) =~= x);
}

proof fn lemma_untag_open(c: MudColor, x: Seq<char>)
    ensures
        untag(span_open(c) + x) == untag(x),
{
    reveal_strlit("</span>");
    reveal_strlit("<span style=\"color:");
    reveal_strlit("\">");
    reveal_strlit("#000000");
    reveal_strlit("#FF0000");
    reveal_strlit("#00FF00");
    reveal_strlit("#FFFF00");
    reveal_strlit("#0000FF");
    reveal_strlit("#FF00FF");
    reveal_strlit("#00FFFF");
    reveal_strlit("#FFFFFF");
    reveal_strlit("#808080");
    reveal_strlit("#FF8080");
    reveal_strlit("#80FF80");
    reveal_strlit("#FFFF80");
    reveal_strlit("#8080FF");
    reveal_strlit("#FF80FF");
    reveal_strlit("#80FFFF");
    assert(color_html(c).len() == 7);
    let t = span_open(c) + x;
    assert(span_open(c).len() == 28);
    assert(t[0] == '<');
    assert(t[1] == 's');
    assert(t.subrange(0, 7) != "</span>"@) by {
        assert(t.subrange(0, 7)[1] == 's');
    }
    assert(t.subrange(0, 19) =~= "<span style=\"color:"@);
    assert(t[27] == span_open(c)[27]);
    assert(t[27] == '>');
    assert(t.subrange(28, t.len() as int) =~= x);
}

/// Text whose every `<` is plain (see `lt_plain`) renders (see
/// `html_from`) into HTML whose text, once the span tags are taken out, is
/// the text without its colour codes.
pub proof fn lemma_untag_html(s: Seq<char>, cur: MudColor)
    requires
        lt_plain(s),
    ensures
        untag(html_from(s, cur)) == strip_codes(s),
    decreases s.len(),
{
    if s.len() == 0 || (s[0] == '§' && s.len() == 1) {
        if cur != MudColor::Normal {
            lemma_untag_close(Seq::<char>::empty());
            assert("</span>"@ + Seq::<char>::empty() =~= "</span>"@);
        }
    } else if s[0] == '§' {
        let rest = s.subrange(2, s.len() as int);
        lemma_lt_plain_skip(s, 2);
        let nc = color_of_char(s[1]);
        if nc != MudColor::Normal {
            lemma_untag_html(rest, nc);
            lemma_untag_open(nc, html_from(rest, nc));
            if cur != MudColor::Normal {
                lemma_untag_close(span_open(nc) + html_from(rest, nc));
                assert(span_close(cur) + span_open(nc) + html_from(rest, nc) =~= "</span>"@ + (span_open(nc) + html_from(rest, nc)));
            } else {
                assert(span_close(cur) + span_open(nc) + html_from(rest, nc) =~= span_open(nc) + html_from(rest, nc));
            }
        } else {
            lemma_untag_html(rest, MudColor::Normal);
            if cur != MudColor::Normal {
                lemma_untag_close(html_from(rest, MudColor::Normal));
            } else {
                assert(span_close(cur) + html_from(rest, MudColor::Normal) =~= html_from(rest, MudColor::Normal));
            }
        }
    } else {
        let rest = s.subrange(1, s.len() as int);
        lemma_lt_plain_skip(s, 1);
        lemma_untag_html(rest, cur);
        let t = seq![s[0]] + html_from(rest, cur);
        assert(t[0] == s[0]);
        assert(t.subrange(1, t.len() as int) =~= html_from(rest, cur));
        if s[0] == '<' {
            lemma_plain_lt_head(s, cur);
            reveal_strlit("</span>");
            reveal_strlit("<span style=\"color:");
            if t.len() >= 7 {
                assert(t.subrange(0, 7) != "</span>"@) by { assert(t.subrange(0, 7)[1] == t[1]); }
            }
            if t.len() >= 28 {
                assert(t.subrange(0, 19) != "<span style=\"color:"@) by { assert(t.subrange(0, 19)[1] == t[1]); }
            }
        }
    }
}

/// `s` repeated `n` times.
pub open spec fn repeat_seq(s: Seq<char>, n: nat) -> Seq<char>
    decreases n,
{
    if n == 0 {
        Seq::<char>::empty()
    } else {
        repeat_seq(s, (n - 1) as nat) + s
    }
}

impl MudColor {
    /// The colour code, such as `§R` for red.
    pub fn code(self) -> (r: &'static str)
        ensures
            r@ == color_code(self),
    {
        match self {
            MudColor::Black => "§k",
            MudColor::Red => "§R",
            MudColor::Green => "§G",
            MudColor::Yellow => "§Y",
            MudColor::Blue => "§B",
            MudColor::Magenta => "§M",
            MudColor::Cyan => "§C",
            MudColor::White => "§W",
            MudColor::DarkGray => "§b",
            MudColor::BrightRed => "§r",
            MudColor::BrightGreen => "§g",
            MudColor::BrightYellow => "§y",
            MudColor::BrightBlue => "§u",
            MudColor::BrightMagenta => "§m",
            MudColor::BrightCyan => "§c",
            MudColor::BrightWhite => "§w",
            MudColor::Normal => "§N",
        }
    }

    /// The HTML colour, such as `#FF0000` for red.
    pub fn html_color(self) -> (r: &'static str)
        ensures
            r@ == color_html(self),
    {
        match self {
            MudColor::Black => "#000000",
            MudColor::Red => "#FF0000",
            MudColor::Green => "#00FF00",
            MudColor::Yellow => "#FFFF00",
            MudColor::Blue => "#0000FF",
            MudColor::Magenta => "#FF00FF",
            MudColor::Cyan => "#00FFFF",
            MudColor::White => "#FFFFFF",
            MudColor::DarkGray => "#808080",
            MudColor::BrightRed => "#FF8080",
            MudColor::BrightGreen => "#80FF80",
            MudColor::BrightYellow => "#FFFF80",
            MudColor::BrightBlue => "#8080FF",
            MudColor::BrightMagenta => "#FF80FF",
            MudColor::BrightCyan => "#80FFFF",
            MudColor::BrightWhite => "#FFFFFF",
            MudColor::Normal => "#FFFFFF",
        }
    }
}

fn color_from_char(c: char) -> (r: MudColor)
    ensures
        r == color_of_char(c),
{
    if c == 'k' {
        MudColor::Black
    } else if c == 'R' {
        MudColor::Red
    } else if c == 'G' {
        MudColor::Green
    } else if c == 'Y' {
        MudColor::Yellow
    } else if c == 'B' {
        MudColor::Blue
    } else if c == 'M' {
        MudColor::Magenta
    } else if c == 'C' {
        MudColor::Cyan
    } else if c == 'W' {
        MudColor::White
    } else if c == 'b' {
        MudColor::DarkGray
    } else if c == 'r' {
        MudColor::BrightRed
    } else if c == 'g' {
        MudColor::BrightGreen
    } else if c == 'y' {
        MudColor::BrightYellow
    } else if c == 'u' {
        MudColor::BrightBlue
    } else if c == 'm' {
        MudColor::BrightMagenta
    } else if c == 'c' {
        MudColor::BrightCyan
    } else if c == 'w' {
        MudColor::BrightWhite
    } else {
        MudColor::Normal
    }
}

/// The first place from `j` on that ends a link's text: a `]`, a `:` or
/// the end.
pub open spec fn text_stop(s: Seq<char>, j: int) -> int
    decreases s.len() - j,
{
    if j >= s.len() || s[j] == ']' || s[j] == ':' { j } else { text_stop(s, j + 1) }
}

/// The first place from `j` on that ends a link's command: a `]` or the end.
pub open spec fn cmd_stop(s: Seq<char>, j: int) -> int
    decreases s.len() - j,
{
    if j >= s.len() || s[j] == ']' { j } else { cmd_stop(s, j + 1) }
}

/// A link `[text:cmd]` starts at `i`, its `:` at `j` and its `]` at `k`.
pub open spec fn link_at(s: Seq<char>, i: int, j: int, k: int) -> bool {
    &&& 0 <= i < s.len() && s[i] == '['
    &&& j == text_stop(s, i + 1) && j > i + 1 && j < s.len() && s[j] == ':'
    &&& k == cmd_stop(s, j + 1) && k > j + 1 && k < s.len()
}

/// The anchor of the link at `i` (with `:` at `j` and `]` at `k`).
pub open spec fn anchor_text(s: Seq<char>, i: int, j: int, k: int) -> Seq<char> {
    "<a href=\"#\" onclick=\"sendCmd('"@ + s.subrange(j + 1, k) + "')\">"@ + s.subrange(i + 1, j) + "</a>"@
}

/// The text of `s` from `i` on with its links made anchors.
pub open spec fn links_from(s: Seq<char>, i: int) -> Seq<char>
    decreases s.len() - i,
{
    if i < 0 || i >= s.len() {
        seq![]
    } else {
        let j = text_stop(s, i + 1);
        let k = cmd_stop(s, j + 1);
        if link_at(s, i, j, k) {
            anchor_text(s, i, j, k) + links_from(s, k + 1)
        } else {
            seq![s[i]] + links_from(s, i + 1)
        }
    }
}

/// The text `s` with its links made anchors.
pub open spec fn links_html(s: Seq<char>) -> Seq<char> {
    links_from(s, 0)
}

proof fn lemma_links_from_empty(s: Seq<char>)
    ensures
        links_from(s, s.len() as int) == Seq::<char>::empty(),
{
}

fn text_stop_of(cs: &Vec<char>, j: usize) -> (r: usize)
    requires
        j <= cs@.len(),
    ensures
        r == text_stop(cs@, j as int),
        j <= r <= cs@.len(),
{
    let mut t = j;
    while t < cs.len() && cs[t] != ']' && cs[t] != ':'
        invariant
            j <= t <= cs@.len(),
            text_stop(cs@, t as int) == text_stop(cs@, j as int),
        decreases cs.len() - t,
    {
        t = t + 1;
    }
    t
}

fn cmd_stop_of(cs: &Vec<char>, j: usize) -> (r: usize)
    requires
        j <= cs@.len(),
    ensures
        r == cmd_stop(cs@, j as int),
        j <= r <= cs@.len(),
{
    let mut t = j;
    while t < cs.len() && cs[t] != ']'
        invariant
            j <= t <= cs@.len(),
            cmd_stop(cs@, t as int) == cmd_stop(cs@, j as int),
        decreases cs.len() - t,
    {
        t = t + 1;
    }
    t
}

fn link_span(cs: &Vec<char>, i: usize) -> (r: Option<(usize, usize)>)
    requires
        i < cs@.len(),
    ensures
        match r {
            Some((j, k)) => link_at(cs@, i as int, j as int, k as int),
            None => !link_at(cs@, i as int, text_stop(cs@, i + 1), cmd_stop(cs@, text_stop(cs@, i + 1) + 1)),
        },
{
    if cs[i] != '[' {
        return None;
    }
    assert(cs@.len() == cs.len());
    let j = text_stop_of(cs, i + 1);
    if j <= i + 1 || j >= cs.len() || cs[j] != ':' {
        return None;
    }
    let k = cmd_stop_of(cs, j + 1);
    if k <= j + 1 || k >= cs.len() {
        return None;
    }
    Some((j, k))
}

fn push_range(out: &mut String, cs: &Vec<char>, a: usize, b: usize)
    requires
        a <= b <= cs@.len(),
    ensures
        final(out)@ == old(out)@ + cs@.subrange(a as int, b as int),
{
    let mut t = a;
    while t < b
        invariant
            a <= t <= b,
            b <= cs@.len(),
            out@ == old(out)@ + cs@.subrange(a as int, t as int),
        decreases b - t,
    {
        push_char(out, cs[t]);
        assert(cs@.subrange(a as int, t + 1) =~= cs@.subrange(a as int, t as int).push(cs@[t as int]));
        t = t + 1;
    }
}

/// Formatting helpers for MUD text.
pub struct MudFormatter;

impl MudFormatter {
    /// `text` in colour `color`, followed by the reset code.
    pub fn color(text: &str, color: MudColor) -> (r: String)
        ensures
            r@ == colored(text@, color),
    {
        let mut s = string_of(color.code());
        push_str(&mut s, text);
        push_str(&mut s, MudColor::Normal.code());
        s
    }

    /// Red text.
    pub fn red(text: &str) -> (r: String)
        ensures
            r@ == colored(text@, MudColor::Red),
    {
        Self::color(text, MudColor::Red)
    }

    /// Green text.
    pub fn green(text: &str) -> (r: String)
        ensures
            r@ == colored(text@, MudColor::Green),
    {
        Self::color(text, MudColor::Green)
    }

    /// Yellow text.
    pub fn yellow(text: &str) -> (r: String)
        ensures
            r@ == colored(text@, MudColor::Yellow),
    {
        Self::color(text, MudColor::Yellow)
    }

    /// Blue text.
    pub fn blue(text: &str) -> (r: String)
        ensures
            r@ == colored(text@, MudColor::Blue),
    {
        Self::color(text, MudColor::Blue)
    }

    /// Highlighted (bright yellow) text.
    pub fn highlight(text: &str) -> (r: String)
        ensures
            r@ == colored(text@, MudColor::BrightYellow),
    {
        Self::color(text, MudColor::BrightYellow)
    }

    /// A system message (bright cyan).
    pub fn system(text: &str) -> (r: String)
        ensures
            r@ == colored(text@, MudColor::BrightCyan),
    {
        Self::color(text, MudColor::BrightCyan)
    }

    /// An important message (bright red).
    pub fn important(text: &str) -> (r: String)
        ensures
            r@ == colored(text@, MudColor::BrightRed),
    {
        Self::color(text, MudColor::BrightRed)
    }

    /// A hyperlink `[text:command]`.
    pub fn link(text: &str, command: &str) -> (r: String)
        ensures
            r@ == link_text(text@, command@),
    {
        let mut s = string_of("[");
        push_str(&mut s, text);
        push_str(&mut s, ":");
        push_str(&mut s, command);
        push_str(&mut s, "]");
        s
    }

    /// A button, written as a hyperlink.
    pub fn button(text: &str, command: &str) -> (r: String)
        ensures
            r@ == link_text(text@, command@),
    {
        Self::link(text, command)
    }

    /// A room title (bright yellow).
    pub fn room_title(text: &str) -> (r: String)
        ensures
            r@ == colored(text@, MudColor::BrightYellow),
    {
        Self::color(text, MudColor::BrightYellow)
    }

    /// An NPC name (bright green).
    pub fn npc_name(text: &str) -> (r: String)
        ensures
            r@ == colored(text@, MudColor::BrightGreen),
    {
        Self::color(text, MudColor::BrightGreen)
    }

    /// A player name (bright cyan).
    pub fn player_name(text: &str) -> (r: String)
        ensures
            r@ == colored(text@, MudColor::BrightCyan),
    {
        Self::color(text, MudColor::BrightCyan)
    }

    /// An item name (bright magenta).
    pub fn item_name(text: &str) -> (r: String)
        ensures
            r@ == colored(text@, MudColor::BrightMagenta),
    {
        Self::color(text, MudColor::BrightMagenta)
    }

    /// A direction button leading to `room`.
    pub fn direction_button(dir: &str, room: &str) -> (r: String)
        ensures
            r@ == link_text(dir@, room@),
    {
        Self::button(dir, room)
    }

    /// Combat information (bright red).
    pub fn combat_info(text: &str) -> (r: String)
        ensures
            r@ == colored(text@, MudColor::BrightRed),
    {
        Self::color(text, MudColor::BrightRed)
    }

    /// A stat label (cyan).
    pub fn stat_label(label: &str) -> (r: String)
        ensures
            r@ == colored(label@, MudColor::Cyan),
    {
        Self::color(label, MudColor::Cyan)
    }

    /// The escaped line break `\n` (a backslash and an `n`).
    pub fn newline() -> (r: String)
        ensures
            r@ == "\\n"@,
    {
        string_of("\\n")
    }

    /// The separator, an escaped line break.
    pub fn separator() -> (r: String)
        ensures
            r@ == "\\n"@,
    {
        string_of("\\n")
    }

    /// Turns colour codes into HTML spans (see `html_from`).
    pub fn to_html(text: &str) -> (r: String)
        ensures
            r@ == html_from(text@, MudColor::Normal),
    {
        let cs = chars_of(text);
        let n = cs.len();
        let mut result = String::new();
        let mut cur = MudColor::Normal;
        let mut i: usize = 0;
        assert(cs@.subrange(0, n as int) =~= cs@);
        assert(result@ + html_from(cs@, cur) =~= html_from(cs@, cur));
        while i < n
            invariant
                n == cs@.len(),
                i <= n,
                result@ + html_from(cs@.subrange(i as int, n as int), cur) == html_from(
                    cs@,
                    MudColor::Normal,
                ),
            decreases n - i,
        {
            let ghost rest = cs@.subrange(i as int, n as int);
            let c = cs[i];
            if c == '§' {
                if i + 1 < n {
                    let nc = color_from_char(cs[i + 1]);
                    assert(rest.subrange(2, rest.len() as int) =~= cs@.subrange(
                        i + 2,
                        n as int,
                    ));
                    let ghost before = result@;
                    if nc != MudColor::Normal {
                        if cur != MudColor::Normal {
                            push_str(&mut result, "</span>");
                        }
                        push_str(&mut result, "<span style=\"color:");
                        push_str(&mut result, nc.html_color());
                        push_str(&mut result, "\">");
                        assert(result@ =~= before + span_close(cur) + span_open(nc));
                        cur = nc;
                    } else {
                        if cur != MudColor::Normal {
                            push_str(&mut result, "</span>");
                        }
                        assert(result@ =~= before + span_close(cur));
                        cur = MudColor::Normal;
                    }
                    i = i + 2;
                } else {
                    assert(rest.len() == 1);
                    i = i + 1;
                    assert(cs@.subrange(i as int, n as int) =~= Seq::<char>::empty());
                }
            } else {
                let ghost before = result@;
                push_char(&mut result, c);
                assert(rest.subrange(1, rest.len() as int) =~= cs@.subrange(i + 1, n as int));
                i = i + 1;
            }
        }
        assert(cs@.subrange(n as int, n as int) =~= Seq::<char>::empty());
        if cur != MudColor::Normal {
            push_str(&mut result, "</span>");
        }
        assert(cs@ =~= text@);
        result
    }

    /// Turns links `[text:cmd]` into HTML anchors that send the command
    /// (see `links_html`): the text has neither `]` nor `:`, the command no
    /// `]`, and both are non-empty; the rest is kept as it is.
    pub fn links_to_html(text: &str) -> (r: String)
        ensures
            r@ == links_html(text@),
    {
        let cs = chars_of(text);
        let n = cs.len();
        let mut out = String::new();
        let mut i: usize = 0;
        proof { lemma_links_from_empty(text@); }
        while i < n
            invariant
                cs@ == text@,
                n == cs@.len(),
                i <= n,
                out@ + links_from(text@, i as int) == links_from(text@, 0),
            decreases n - i,
        {
            let ghost before = out@;
            match link_span(&cs, i) {
                Some((j, k)) => {
                    push_str(&mut out, "<a href=\"#\" onclick=\"sendCmd('");
                    push_range(&mut out, &cs, j + 1, k);
                    push_str(&mut out, "')\">");
                    push_range(&mut out, &cs, i + 1, j);
                    push_str(&mut out, "</a>");
                    proof {
                        assert(links_from(text@, i as int) == anchor_text(text@, i as int, j as int, k as int) + links_from(text@, k + 1));
                        assert(out@ =~= before + anchor_text(text@, i as int, j as int, k as int));
                    }
                    i = k + 1;
                },
                None => {
                    push_char(&mut out, cs[i]);
                    proof {
                        assert(links_from(text@, i as int) == seq![text@[i as int]] + links_from(text@, i + 1));
                        assert(out@ =~= before + seq![text@[i as int]]);
                    }
                    i = i + 1;
                },
            }
        }
        proof { assert(links_from(text@, i as int) =~= Seq::<char>::empty()); }
        assert(out@ =~= links_from(text@, 0));
        out
    }
}

/// An output text built piece by piece.
pub struct OutputBuilder {
    content: String,
}

impl View for OutputBuilder {
    type V = Seq<char>;

    closed spec fn view(&self) -> Seq<char> {
        self.content@
    }
}

impl OutputBuilder {
    /// An empty output.
    pub fn new() -> (r: Self)
        ensures
            r@ == Seq::<char>::empty(),
    {
        OutputBuilder { content: String::new() }
    }

    /// Appends plain text.
    pub fn text(self, text: &str) -> (r: Self)
        ensures
            r@ == self@ + text@,
    {
        let mut c = self.content;
        push_str(&mut c, text);
        OutputBuilder { content: c }
    }

    /// Appends coloured text.
    pub fn colored(self, text: &str, color: MudColor) -> (r: Self)
        ensures
            r@ == self@ + colored(text@, color),
    {
        let mut c = self.content;
        let t = MudFormatter::color(text, color);
        push_str(&mut c, t.as_str());
        OutputBuilder { content: c }
    }

    /// Appends red text.
    pub fn red(self, text: &str) -> (r: Self)
        ensures
            r@ == self@ + colored(text@, MudColor::Red),
    {
        self.colored(text, MudColor::Red)
    }

    /// Appends green text.
    pub fn green(self, text: &str) -> (r: Self)
        ensures
            r@ == self@ + colored(text@, MudColor::Green),
    {
        self.colored(text, MudColor::Green)
    }

    /// Appends yellow text.
    pub fn yellow(self, text: &str) -> (r: Self)
        ensures
            r@ == self@ + colored(text@, MudColor::Yellow),
    {
        self.colored(text, MudColor::Yellow)
    }

    /// Appends blue text.
    pub fn blue(self, text: &str) -> (r: Self)
        ensures
            r@ == self@ + colored(text@, MudColor::Blue),
    {
        self.colored(text, MudColor::Blue)
    }

    /// Appends highlighted text.
    pub fn highlight(self, text: &str) -> (r: Self)
        ensures
            r@ == self@ + colored(text@, MudColor::BrightYellow),
    {
        self.colored(text, MudColor::BrightYellow)
    }

    /// Appends a hyperlink.
    pub fn link(self, text: &str, command: &str) -> (r: Self)
        ensures
            r@ == self@ + link_text(text@, command@),
    {
        let mut c = self.content;
        let t = MudFormatter::link(text, command);
        push_str(&mut c, t.as_str());
        OutputBuilder { content: c }
    }

    /// Appends an escaped line break.
    pub fn newline(self) -> (r: Self)
        ensures
            r@ == self@ + "\\n"@,
    {
        let mut c = self.content;
        push_str(&mut c, "\\n");
        OutputBuilder { content: c }
    }

    /// Appends `count` escaped line breaks.
    pub fn newlines(self, count: usize) -> (r: Self)
        ensures
            r@ == self@ + repeat_seq("\\n"@, count as nat),
    {
        let mut c = self.content;
        let ghost start = c@;
        let mut k: usize = 0;
        while k < count
            invariant
                k <= count,
                c@ == start + repeat_seq("\\n"@, k as nat),
            decreases count - k,
        {
            push_str(&mut c, "\\n");
            k = k + 1;
            assert(c@ =~= start + repeat_seq("\\n"@, k as nat));
        }
        OutputBuilder { content: c }
    }

    /// The text built so far.
    pub fn build(self) -> (r: String)
        ensures
            r@ == self@,
    {
        self.content
    }
}

impl Default for OutputBuilder {
    fn default() -> (r: Self)
        ensures
            r@ == Seq::<char>::empty(),
    {
        Self::new()
    }
}

} // verus!
