//! The name of the product behind `ClaudeAgent`, letter by letter: once as its command
//! spells it, once as people do.
use vstd::prelude::*;

verus! {

/// The letters behind the first.
pub open spec fn rest() -> Seq<char> {
    seq!['l', 'a', 'u', 'd', 'e']
}

/// The name of the command.
pub open spec fn command() -> Seq<char> {
    seq!['c'] + rest()
}

/// The name as people write it.
pub open spec fn title() -> Seq<char> {
    seq!['C'] + rest()
}

fn push_rest(name: &mut String)
    ensures
        final(name)@ == old(name)@ + rest(),
{
    name.push('l');
    name.push('a');
    name.push('u');
    name.push('d');
    name.push('e');
    assert(name@ == old(name)@ + rest());
}

/// The name of the command.
pub fn command_name() -> (name: String)
    ensures
        name@ == command(),
{
    let mut name = String::new();
    name.push('c');
    push_rest(&mut name);
    assert(name@ == command());
    name
}

/// The name as people write it.
pub fn title_name() -> (name: String)
    ensures
        name@ == title(),
{
    let mut name = String::new();
    name.push('C');
    push_rest(&mut name);
    assert(name@ == title());
    name
}

} // verus!
