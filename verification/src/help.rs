//! The help text: the program's description and one line per flag, the
//! names and the annotations each padded to a common width.
//!
//! Widths are the largest lengths in bytes; padding counts characters. For
//! names and defaults in plain ASCII the two agree and the columns line up.

use vstd::prelude::*;
use vstd::string::{StrSliceExecFns, StringExecFns};
use vstd::utf8::{encode_utf8, is_ascii_chars, is_ascii_chars_encode_utf8};
use crate::flag::{expect_value, flag_views, value_of, value_views, Flag, FlagValue, FlagValueView, FlagView};
use crate::program::{Program, ProgramView};

verus! {

/// The length of a text in bytes, as the machine reports it.
pub open spec fn byte_len(text: Seq<char>) -> usize {
    encode_utf8(text).len() as usize
}

/// The first `n` characters of a text, with spaces where it has fewer.
pub open spec fn padded(text: Seq<char>, n: nat) -> Seq<char> {
    Seq::new(
        n,
        |i: int|
            if i < text.len() {
                text[i]
            } else {
                ' '
            },
    )
}

/// What the help text says of a flag besides its name and description.
pub open spec fn annotation(flag: FlagView, defaults: Seq<FlagValueView>) -> Seq<char> {
    if flag.is_required {
        "(required)"@
    } else {
        "(default: "@ + value_of(defaults, flag.name).unwrap() + ")"@
    }
}

/// The largest byte length among the names of the first `n` flags.
pub open spec fn name_width(flags: Seq<FlagView>, n: int) -> usize
    decreases n,
{
    if n <= 0 {
        0
    } else {
        let rest = name_width(flags, n - 1);
        let this = byte_len(flags[n - 1].name);
        if this > rest {
            this
        } else {
            rest
        }
    }
}

/// The largest byte length among the annotations of the first `n` flags.
pub open spec fn annotation_width(flags: Seq<FlagView>, defaults: Seq<FlagValueView>, n: int) -> usize
    decreases n,
{
    if n <= 0 {
        0
    } else {
        let rest = annotation_width(flags, defaults, n - 1);
        let this = byte_len(annotation(flags[n - 1], defaults));
        if this > rest {
            this
        } else {
            rest
        }
    }
}

/// The line for one flag, led by a line break.
pub open spec fn help_line(
    flag: FlagView,
    defaults: Seq<FlagValueView>,
    names: usize,
    notes: usize,
) -> Seq<char> {
    "\n\t--"@ + padded(flag.name, names as nat) + " "@ + padded(
        annotation(flag, defaults),
        notes as nat,
    ) + ": "@ + flag.desc
}

/// The lines for the first `n` flags, one after the other.
pub open spec fn help_lines(
    flags: Seq<FlagView>,
    defaults: Seq<FlagValueView>,
    names: usize,
    notes: usize,
    n: int,
) -> Seq<char>
    decreases n,
{
    if n <= 0 {
        Seq::empty()
    } else {
        help_lines(flags, defaults, names, notes, n - 1) + help_line(
            flags[n - 1],
            defaults,
            names,
            notes,
        )
    }
}

/// The part of the help text that lists the flags.
pub open spec fn help_body(flags: Seq<FlagView>, defaults: Seq<FlagValueView>) -> Seq<char> {
    if flags.len() == 0 {
        "(no args)"@
    } else {
        let n = flags.len() as int;
        help_lines(
            flags,
            defaults,
            name_width(flags, n),
            annotation_width(flags, defaults, n),
            n,
        ).skip(1)
    }
}

/// The whole help text of a program.
pub open spec fn help_text(p: ProgramView) -> Seq<char> {
    "\n"@ + p.desc + "\n\n"@ + help_body(p.flags, p.defaults) + "\n"@
}

/// A text in plain ASCII that is no longer than the machine can count is as
/// many bytes long as it has characters.
pub proof fn lemma_ascii_byte_len(text: Seq<char>)
    requires
        is_ascii_chars(text),
        text.len() <= usize::MAX,
    ensures
        byte_len(text) == text.len(),
{
    is_ascii_chars_encode_utf8(text);
}

/// Padding a text to no less than its length keeps all of it and fills up
/// with spaces.
pub proof fn lemma_padded_keeps(text: Seq<char>, n: nat)
    requires
        text.len() <= n,
    ensures
        padded(text, n) == text + Seq::new((n - text.len()) as nat, |i: int| ' '),
{
    assert(padded(text, n) =~= text + Seq::new((n - text.len()) as nat, |i: int| ' '));
}

/// The widths are no less than the byte length of any name and of any
/// annotation among the flags they were taken over.
pub proof fn lemma_widths_bound(
    flags: Seq<FlagView>,
    defaults: Seq<FlagValueView>,
    n: int,
    k: int,
)
    requires
        0 <= k < n,
    ensures
        byte_len(flags[k].name) <= name_width(flags, n),
        byte_len(annotation(flags[k], defaults)) <= annotation_width(flags, defaults, n),
    decreases n,
{
    if k < n - 1 {
        lemma_widths_bound(flags, defaults, n - 1, k);
    }
}

/// The columns line up for plain ASCII: every line of the help text shows
/// the whole name and the whole annotation of its flag, each filled up with
/// spaces to the width that all lines share.
pub proof fn lemma_columns_line_up(flags: Seq<FlagView>, defaults: Seq<FlagValueView>, k: int)
    requires
        0 <= k < flags.len(),
        is_ascii_chars(flags[k].name),
        is_ascii_chars(annotation(flags[k], defaults)),
        flags[k].name.len() <= usize::MAX,
        annotation(flags[k], defaults).len() <= usize::MAX,
    ensures
        ({
            let names = name_width(flags, flags.len() as int);
            let notes = annotation_width(flags, defaults, flags.len() as int);
            let name = flags[k].name;
            let note = annotation(flags[k], defaults);
            &&& name.len() <= names
            &&& note.len() <= notes
            &&& help_line(flags[k], defaults, names, notes) == "\n\t--"@ + name + Seq::new(
                (names - name.len()) as nat,
                |i: int| ' ',
            ) + " "@ + note + Seq::new((notes - note.len()) as nat, |i: int| ' ') + ": "@
                + flags[k].desc
        }),
{
    let names = name_width(flags, flags.len() as int);
    let notes = annotation_width(flags, defaults, flags.len() as int);
    lemma_widths_bound(flags, defaults, flags.len() as int, k);
    lemma_ascii_byte_len(flags[k].name);
    lemma_ascii_byte_len(annotation(flags[k], defaults));
    lemma_padded_keeps(flags[k].name, names as nat);
    lemma_padded_keeps(annotation(flags[k], defaults), notes as nat);
}

/// Cuts or pads a text to exactly `n` characters.
pub fn pad_str(text: String, n: usize) -> (out: String)
    ensures
        out@ == padded(text@, n as nat),
{
    let len: usize = text.as_str().unicode_len();
    if len >= n {
        text.as_str().substring_char(0, n).to_owned()
    } else {
        let ghost source = text@;
        let mut out = text;
        let mut k: usize = len;
        while k < n
            invariant
                source.len() <= k <= n,
                out@ == padded(source, k as nat),
            decreases n - k,
        {
            proof {
                reveal_strlit(" ");
            }
            out.append(" ");
            k += 1;
        }
        out
    }
}

/// Writes what the help text says of a flag besides its name and
/// description.
fn annotate(flag: &Flag, defaults: &Vec<FlagValue>) -> (note: String)
    requires
        !flag.is_required ==> value_of(value_views(defaults@), flag.name@) is Some,
    ensures
        note@ == annotation(flag@, value_views(defaults@)),
{
    if flag.is_required {
        String::from_str("(required)")
    } else {
        let default = expect_value(defaults, flag.name);
        String::from_str("(default: ").concat(default.as_str()).concat(")")
    }
}

impl<'a> Program<'a> {
    /// Renders the help text: the description, then the flags in
    /// registration order, or a note that there are none.
    pub fn generate_help_text(&self) -> (text: String)
        ensures
            text@ == help_text(self@),
    {
        let flags = self.flags();
        let defaults = self.flag_defaults();
        let ghost fls = self@.flags;
        let ghost dfs = self@.defaults;
        let mut names: usize = 0;
        let mut notes: usize = 0;
        let mut annotations: Vec<String> = Vec::new();
        let mut i: usize = 0;
        while i < flags.len()
            invariant
                0 <= i <= flags.len(),
                fls == flag_views(flags@),
                dfs == value_views(defaults@),
                self@.wf(),
                fls == self@.flags,
                dfs == self@.defaults,
                names == name_width(fls, i as int),
                notes == annotation_width(fls, dfs, i as int),
                annotations.len() == i,
                forall|j: int| 0 <= j < i ==> (#[trigger] annotations[j])@ == annotation(fls[j], dfs),
            decreases flags.len() - i,
        {
            assert(fls[i as int] == flags[i as int]@);
            let note = annotate(&flags[i], defaults);
            let name_len: usize = flags[i].name.len();
            let note_len: usize = note.as_str().len();
            if name_len > names {
                names = name_len;
            }
            if note_len > notes {
                notes = note_len;
            }
            annotations.push(note);
            i += 1;
        }
        let mut text = String::from_str("\n").concat(self.description()).concat("\n\n");
        let ghost lead = text@;
        if flags.len() == 0 {
            text.append("(no args)");
        } else {
            let mut k: usize = 0;
            while k < flags.len()
                invariant
                    0 <= k <= flags.len(),
                    flags.len() > 0,
                    fls == flag_views(flags@),
                    annotations.len() == flags.len(),
                    forall|j: int|
                        0 <= j < flags.len() ==> (#[trigger] annotations[j])@ == annotation(
                            fls[j],
                            dfs,
                        ),
                    k == 0 ==> text@ == lead,
                    k > 0 ==> text@ == lead + help_lines(fls, dfs, names, notes, k as int).skip(1),
                    k > 0 ==> help_lines(fls, dfs, names, notes, k as int).len() > 0,
                decreases flags.len() - k,
            {
                proof {
                    reveal_strlit("\n\t--");
                    reveal_strlit("\t--");
                }
                if k == 0 {
                    text.append("\t--");
                } else {
                    text.append("\n\t--");
                }
                let name = pad_str(flags[k].name.to_owned(), names);
                let note = pad_str(annotations[k].clone(), notes);
                text.append(name.as_str());
                text.append(" ");
                text.append(note.as_str());
                text.append(": ");
                text.append(flags[k].desc);
                k += 1;
            }
        }
        text.append("\n");
        text
    }
}

} // verus!
