//! Entries of the tray menu as plain values.
use vstd::prelude::*;

verus! {

#[derive(Debug)]
pub enum TaskMenuError {
    Init(String),
    Unexpected(String),
}

/// A menu entry: its title, an opaque attribute (a peer's address for the
/// entries the engine adds), whether it stays for the life of the menu, and
/// its position.
#[derive(Debug)]
pub struct ButtonData {
    pub btn_title: String,
    pub attrs_str: Option<String>,
    pub is_static: bool,
    pub index: Option<usize>,
}

impl ButtonData {
    /// An entry that stays for the life of the menu.
    pub fn from_str_static(input: &str) -> (r: Self)
        ensures
            r.btn_title@ == input@,
            r.attrs_str is None,
            r.is_static,
            r.index == Some(0usize),
    {
        ButtonData { btn_title: input.to_owned(), attrs_str: None, is_static: true, index: Some(0) }
    }

    /// An entry that a reset of the dynamic entries removes.
    pub fn from_str_dyn(input: &str) -> (r: Self)
        ensures
            r.btn_title@ == input@,
            r.attrs_str is None,
            !r.is_static,
            r.index == Some(0usize),
    {
        ButtonData {
            btn_title: input.to_owned(),
            attrs_str: None,
            is_static: false,
            index: Some(0),
        }
    }
}

} // verus!
