use vstd::prelude::*;

verus! {

/// The text of the first entry of the port list, which selects no port.
pub open spec fn placeholder_text() -> Seq<char> {
    "Selezionare..."@
}

/// The choices offered to the operator: the placeholder first, then the
/// names of the ports found, in the order found.
pub fn port_choices(found: Vec<String>) -> (r: Vec<String>)
    ensures
        r@.len() == found@.len() + 1,
        r@[0]@ == placeholder_text(),
        r@.skip(1) == found@,
{
    let mut r: Vec<String> = Vec::new();
    r.push("Selezionare...".to_owned());
    let mut rest = found;
    r.append(&mut rest);
    assert(r@.skip(1) =~= found@);
    r
}

/// The port at `index` of the choices, or `None` for the placeholder or an
/// index past the end.
pub fn selected_port(choices: &Vec<String>, index: usize) -> (r: Option<&String>)
    ensures
        (index == 0 || index >= choices@.len()) ==> r is None,
        (0 < index < choices@.len()) ==> r == Some(&choices@[index as int]),
{
    if index == 0 || index >= choices.len() {
        None
    } else {
        Some(&choices[index])
    }
}

} // verus!
