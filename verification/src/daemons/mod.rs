pub mod storaged;
pub mod petd;
pub mod achieved;
pub mod activityd;
pub mod duanzaod;
pub mod friendd;
pub mod auctiond;
pub mod bangd;
pub mod traded;
pub mod malld;
pub mod itemd;
pub mod schoold;
pub mod taskd;
pub mod pkd;
pub mod maild;
pub mod runtime_npc_d;
pub mod spawn_d;
pub mod fbdd;
pub mod rebirthd;
pub mod autofightd;
pub mod crond;
pub mod skilld;
pub mod toptend;
