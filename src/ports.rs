//! Choice of the serial devices that are offered to the operator.
use vstd::prelude::*;

verus! {

/// Pattern that a usable serial device's name contains.
pub const TTY_PATTERN: &'static str = "/dev/tty[A-Za-z]*";

/// Whether the regular expression `pattern` matches somewhere in `text`.
pub uninterp spec fn regex_finds(pattern: Seq<char>, text: Seq<char>) -> bool;

/// Relies on `regex::Regex::new`, which compiles `pattern` or fails, and
/// `regex::Regex::is_match`, which tells whether the compiled expression
/// matches anywhere in `text`. `Regex::new` fails only on an invalid pattern
/// or one over the default size limit; `TTY_PATTERN` is neither.
#[verifier::external_body]
fn regex_search(pattern: &str, text: &str) -> (r: Option<bool>)
    ensures
        pattern@ == TTY_PATTERN@ ==> r is Some,
        r matches Some(found) ==> found == regex_finds(pattern@, text@),
{
    match regex::Regex::new(pattern) {
        Ok(re) => Some(re.is_match(text)),
        Err(_) => None,
    }
}

/// The names among `names` in which `pattern` finds a match, in order.
pub open spec fn matching_names(pattern: Seq<char>, names: Seq<String>) -> Seq<String>
    decreases names.len(),
{
    if names.len() == 0 {
        names
    } else {
        let rest = matching_names(pattern, names.drop_last());
        if regex_finds(pattern, names.last()@) {
            rest.push(names.last())
        } else {
            rest
        }
    }
}

/// The names of serial devices that look like terminals, in the order
/// given.
pub fn select_serial_ports(names: &Vec<String>) -> (r: Vec<String>)
    ensures
        r@ == matching_names(TTY_PATTERN@, names@),
{
    let mut selected: Vec<String> = Vec::new();
    let mut i: usize = 0;
    while i < names.len()
        invariant
            i <= names@.len(),
            selected@ == matching_names(TTY_PATTERN@, names@.subrange(0, i as int)),
        decreases names@.len() - i,
    {
        let name = &names[i];
        assert(names@.subrange(0, i as int + 1).drop_last() =~= names@.subrange(0, i as int));
        match regex_search(TTY_PATTERN, name.as_str()) {
            None => {
                assert(false);
            },
            Some(found) => {
                if found {
                    selected.push(name.clone());
                }
            },
        }
        i = i + 1;
    }
    assert(names@.subrange(0, names@.len() as int) =~= names@);
    selected
}

} // verus!
