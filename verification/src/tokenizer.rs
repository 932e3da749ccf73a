//! From raw argument tokens to a mapping from flag names to the value token
//! that came with each.
//!
//! A token that starts with two dashes names a flag. Every marker is
//! looked at on its own, so a token may serve as the value of the marker
//! before it and as a marker itself. Where a name is marked more than once,
//! the last occurrence wins.

use vstd::prelude::*;
use vstd::std_specs::iter::IteratorSpec;
use vstd::string::StrSliceExecFns;
use crate::flag::{find_flag, flag_position, flag_views, Flag, FlagView};
use crate::scan::{last_index, lemma_last_index, lemma_last_index_agree, lemma_last_index_is};
use crate::text::same_text;

verus! {

/// The characters of each token.
pub open spec fn token_views(args: Seq<String>) -> Seq<Seq<char>> {
    Seq::new(args.len(), |i: int| args[i]@)
}

/// Whether a token names a flag: it does if it starts with two dashes.
pub open spec fn is_marker(tok: Seq<char>) -> bool {
    tok.len() >= 2 && tok[0] == '-' && tok[1] == '-'
}

/// The flag name inside a marker: the token without its two dashes.
pub open spec fn marker_name(tok: Seq<char>) -> Seq<char> {
    tok.skip(2)
}

/// Whether a token is a marker for the flag called `name`.
pub open spec fn marks(tok: Seq<char>, name: Seq<char>) -> bool {
    is_marker(tok) && marker_name(tok) == name
}

/// The last position at which `name` is marked, if it is marked at all.
pub open spec fn last_mark(args: Seq<Seq<char>>, name: Seq<char>) -> Option<int> {
    last_index(args.len() as int, |i: int| marks(args[i], name))
}

/// The value that goes with the marker at position `i`. A boolean flag
/// never takes the token after it; any other registered flag always does; a
/// marker that names no registered flag takes it unless it is a marker
/// itself.
pub open spec fn value_after(args: Seq<Seq<char>>, flags: Seq<FlagView>, i: int) -> Option<
    Seq<char>,
> {
    if i + 1 >= args.len() {
        None
    } else {
        match flag_position(flags, marker_name(args[i])) {
            Some(k) => if flags[k].kind.needs_value() {
                Some(args[i + 1])
            } else {
                None
            },
            None => if is_marker(args[i + 1]) {
                None
            } else {
                Some(args[i + 1])
            },
        }
    }
}

/// What the first `n` tokens say: each marked name with the value that goes
/// with its last marker.
pub open spec fn tokenized_upto(args: Seq<Seq<char>>, flags: Seq<FlagView>, n: int) -> Map<
    Seq<char>,
    Option<Seq<char>>,
> {
    Map::new(
        |name: Seq<char>| last_index(n, |i: int| marks(args[i], name)) is Some,
        |name: Seq<char>|
            value_after(args, flags, last_index(n, |i: int| marks(args[i], name)).unwrap()),
    )
}

/// What the arguments say: each marked name with the value that goes with
/// its last marker.
pub open spec fn tokenized(args: Seq<Seq<char>>, flags: Seq<FlagView>) -> Map<
    Seq<char>,
    Option<Seq<char>>,
> {
    tokenized_upto(args, flags, args.len() as int)
}

/// One marker as it was met: the bare name and the value paired with it.
#[derive(Clone, Copy, Debug, PartialEq, Eq)]
pub struct GivenArg<'a> {
    pub name: &'a str,
    pub value: Option<&'a str>,
}

/// The mathematical content of a [`GivenArg`].
pub struct GivenView {
    pub name: Seq<char>,
    pub value: Option<Seq<char>>,
}

impl<'a> View for GivenArg<'a> {
    type V = GivenView;

    open spec fn view(&self) -> GivenView {
        GivenView {
            name: self.name@,
            value: match self.value {
                Some(v) => Some(v@),
                None => None,
            },
        }
    }
}

/// The mapping that a run of entries stands for: later entries replace
/// earlier ones of the same name.
pub open spec fn assoc(entries: Seq<GivenArg>) -> Map<Seq<char>, Option<Seq<char>>>
    decreases entries.len(),
{
    if entries.len() == 0 {
        Map::empty()
    } else {
        assoc(entries.drop_last()).insert(entries.last()@.name, entries.last()@.value)
    }
}

/// A name is in the mapping exactly if some entry carries it, and is mapped
/// to the value of the last entry that does.
pub proof fn lemma_assoc(entries: Seq<GivenArg>, name: Seq<char>)
    ensures
        match last_index(entries.len() as int, |i: int| entries[i]@.name == name) {
            Some(i) => assoc(entries).dom().contains(name) && assoc(entries)[name]
                == entries[i]@.value,
            None => !assoc(entries).dom().contains(name),
        },
    decreases entries.len(),
{
    let p = |i: int| entries[i]@.name == name;
    if entries.len() > 0 {
        let front = entries.drop_last();
        let q = |i: int| front[i]@.name == name;
        lemma_assoc(front, name);
        lemma_last_index_agree(front.len() as int, p, q);
        lemma_last_index(entries.len() as int, p);
        lemma_last_index(front.len() as int, q);
    }
}

/// The tokenizer's result: a finite mapping from bare flag names to the
/// value given with each, `None` where a marker came without one.
pub struct GivenArgs<'a> {
    entries: Vec<GivenArg<'a>>,
}

impl<'a> View for GivenArgs<'a> {
    type V = Map<Seq<char>, Option<Seq<char>>>;

    closed spec fn view(&self) -> Map<Seq<char>, Option<Seq<char>>> {
        assoc(self.entries@)
    }
}

impl<'a> GivenArgs<'a> {
    /// Looks `name` up: `None` where it was not marked, `Some(None)` where
    /// it was marked without a value.
    pub fn get(&self, name: &str) -> (found: Option<Option<&'a str>>)
        ensures
            match found {
                Some(Some(v)) => self@.dom().contains(name@) && self@[name@] == Some(v@),
                Some(None) => self@.dom().contains(name@) && self@[name@] is None,
                None => !self@.dom().contains(name@),
            },
    {
        let ghost p = |i: int| self.entries@[i]@.name == name@;
        let mut k: usize = self.entries.len();
        while k > 0
            invariant
                0 <= k <= self.entries.len(),
                p == |i: int| self.entries@[i]@.name == name@,
                forall|j: int| k <= j < self.entries.len() ==> !#[trigger] p(j),
            decreases k,
        {
            k -= 1;
            if same_text(self.entries[k].name, name) {
                proof {
                    lemma_assoc(self.entries@, name@);
                    lemma_last_index_is(self.entries.len() as int, p, k as int);
                }
                return Some(self.entries[k].value);
            }
        }
        proof {
            lemma_assoc(self.entries@, name@);
            lemma_last_index(self.entries.len() as int, p);
        }
        None
    }

    /// Whether `name` was marked at all.
    pub fn contains(&self, name: &str) -> (found: bool)
        ensures
            found == self@.dom().contains(name@),
    {
        self.get(name).is_some()
    }
}

/// Whether a token has the form of a flag marker.
pub fn is_in_arg_format(s: &str) -> (b: bool)
    ensures
        b == is_marker(s@),
{
    let mut it = s.chars();
    match it.next() {
        Some(first) => first == '-' && match it.next() {
            Some(second) => second == '-',
            None => false,
        },
        None => false,
    }
}

/// Pairs the marker at position `i` with its value.
fn pair_value<'a>(
    args: &'a Vec<String>,
    flags: &Vec<Flag>,
    i: usize,
    name: &str,
) -> (value: Option<&'a str>)
    requires
        i < args.len(),
        name@ == marker_name(args[i as int]@),
    ensures
        (match value {
            Some(v) => Some(v@),
            None => None,
        }) == value_after(token_views(args@), flag_views(flags@), i as int),
{
    if i + 1 >= args.len() {
        return None;
    }
    let next = args[i + 1].as_str();
    match find_flag(flags, name) {
        Some(k) => if flags[k].kind.requires_value() {
            Some(next)
        } else {
            None
        },
        None => if is_in_arg_format(next) {
            None
        } else {
            Some(next)
        },
    }
}

/// Scans the arguments once and records, for every marker, the bare flag
/// name and the value that goes with it.
pub fn tokenize<'a>(args: &'a Vec<String>, flags: &Vec<Flag>) -> (given: GivenArgs<'a>)
    ensures
        given@ == tokenized(token_views(args@), flag_views(flags@)),
{
    let ghost toks = token_views(args@);
    let ghost fls = flag_views(flags@);
    let mut entries: Vec<GivenArg<'a>> = Vec::new();
    let mut i: usize = 0;
    while i < args.len()
        invariant
            0 <= i <= args.len(),
            toks == token_views(args@),
            fls == flag_views(flags@),
            assoc(entries@) == tokenized_upto(toks, fls, i as int),
        decreases args.len() - i,
    {
        let tok = args[i].as_str();
        if is_in_arg_format(tok) {
            let n: usize = tok.unicode_len();
            let name = tok.substring_char(2, n);
            let value = pair_value(args, flags, i, name);
            let ghost before = entries@;
            entries.push(GivenArg { name, value });
            assert(entries@.drop_last() =~= before);
        }
        i += 1;
    }
    GivenArgs { entries }
}

} // verus!
