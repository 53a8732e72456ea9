use vstd::prelude::*;

use crate::text::{
    blank_at, chars_of, find_blank, first_blank, is_white, lemma_first_blank_after_line, lemma_no_opening_piece,
    lemma_remove_block, lemma_trim_around, lemma_trim_joined, lemma_trim_keeps, no_opening,
    opens_at, remove_all, remove_all_chars, slice_chars, string_of, trim, trim_chars, trim_end,
    trim_start,
};

verus! {

/// Instructions appended to the message that the operator edits; they are
/// removed again from the description.
pub const PATCH_MSG: &'static str = r#"
<!--
Please enter a patch message for your changes. An empty
message aborts the patch proposal.

The first line is the patch title. The patch description
follows, and must be separated with a blank line, just
like a commit message. Markdown is supported in the title
and description.
-->
"#;

/// The title of an edited message whose first blank line starts at `i`:
/// what comes before that line, trimmed.
pub open spec fn title_of(s: Seq<char>, i: int) -> Seq<char> {
    trim(s.subrange(0, i))
}

/// A title is one line: it holds no newline.
pub open spec fn single_line(s: Seq<char>) -> bool {
    forall|k: int| 0 <= k < s.len() ==> s[k] != '\n'
}

/// Where the title of an edited message ends, when the message is well
/// formed: a blank line follows its first line.
pub open spec fn title_end(s: Seq<char>) -> Option<int> {
    match first_blank(s) {
        Some(i) => if single_line(title_of(s, i)) {
            Some(i)
        } else {
            None
        },
        None => None,
    }
}

/// The description of an edited message whose first blank line starts at
/// `i`: what follows that line, trimmed, without the instructions.
pub open spec fn description_of(s: Seq<char>, i: int) -> Seq<char> {
    trim(remove_all(trim(s.subrange(i + 2, s.len() as int)), trim(PATCH_MSG@)))
}

/// The text that the operator is given to edit: the commit message followed
/// by the instructions.
pub fn seed_message(commit_message: &str) -> (r: String)
    ensures
        r@ == commit_message@ + PATCH_MSG@,
{
    let mut v = chars_of(commit_message);
    let mut tail = chars_of(PATCH_MSG);
    v.append(&mut tail);
    string_of(&v)
}

fn is_single_line(v: &Vec<char>) -> (r: bool)
    ensures
        r == single_line(v@),
{
    let mut k: usize = 0;
    while k < v.len()
        invariant
            k <= v@.len(),
            forall|j: int| 0 <= j < k ==> v@[j] != '\n',
        decreases v@.len() - k,
    {
        if v[k] == '\n' {
            return false;
        }
        k = k + 1;
    }
    true
}

/// Splits an edited message into its title, the first line, and its
/// description, what follows the first blank line. `None` when no blank line
/// directly follows the first line.
pub fn parse_message(text: &str) -> (r: Option<(String, String)>)
    ensures
        match title_end(text@) {
            Some(i) => r matches Some(p) && p.0@ == title_of(text@, i) && p.1@ == description_of(
                text@,
                i,
            ),
            None => r is None,
        },
        r matches Some(p) ==> single_line(p.0@),
{
    let s = chars_of(text);
    match find_blank(&s) {
        None => None,
        Some(i) => {
            let n = s.len();
            assert(blank_at(s@, i as int) && n == s@.len());
            let after = i + 2;
            let title = trim_chars(&slice_chars(&s, 0, i));
            if !is_single_line(&title) {
                return None;
            }
            let rest = trim_chars(&slice_chars(&s, after, n));
            let help = trim_chars(&chars_of(PATCH_MSG));
            let description = trim_chars(&remove_all_chars(&rest, &help));
            Some((string_of(&title), string_of(&description)))
        },
    }
}

/// The instructions, trimmed, open with `<!--` and end in a visible
/// character.
proof fn lemma_instructions_shape()
    ensures
        opens_at(trim(PATCH_MSG@), 0),
        !is_white(trim(PATCH_MSG@).last()),
{
    reveal_strlit(r#"
<!--
Please enter a patch message for your changes. An empty
message aborts the patch proposal.

The first line is the patch title. The patch description
follows, and must be separated with a blank line, just
like a commit message. Markdown is supported in the title
and description.
-->
"#);
    let m = PATCH_MSG@;
    let d = m.drop_first();
    assert(is_white(m[0]) && !is_white(d[0]));
    assert(m.len() > 2 && d.len() > 1);
    assert(trim_start(d) == d);
    assert(trim_start(m) == trim_start(d));
    assert(is_white(d.last()) && !is_white(d.drop_last().last()));
    assert(trim_end(d.drop_last()) == d.drop_last());
    assert(trim_end(d) == trim_end(d.drop_last()));
    assert(trim(m) == d.drop_last());
    assert(d.drop_last()[0] == '<' && d.drop_last()[1] == '!' && d.drop_last()[2] == '-'
        && d.drop_last()[3] == '-');
}

/// A saved message made of a title line, a blank line, and a body with the
/// instructions somewhere in it, where the body holds no `<!--` of its own
/// on either side, gives back the title and the body without the
/// instructions.
pub proof fn lemma_instructions_stripped(a: Seq<char>, b0: Seq<char>, b1: Seq<char>)
    requires
        single_line(a),
        no_opening(b0),
        no_opening(b1),
    ensures
        ({
            let s = a + seq!['\n', '\n'] + b0 + trim(PATCH_MSG@) + b1;
            &&& title_end(s) == Some(a.len() as int)
            &&& title_of(s, a.len() as int) == trim(a)
            &&& description_of(s, a.len() as int) == trim(b0 + b1)
        }),
{
    let p = trim(PATCH_MSG@);
    let rest = b0 + p + b1;
    let s = a + seq!['\n', '\n'] + rest;
    assert(a + seq!['\n', '\n'] + b0 + p + b1 =~= s);
    lemma_first_blank_after_line(a, rest, 0);
    let n = a.len() as int;
    assert(s.subrange(0, n) =~= a);
    assert(s.subrange(n + 2, s.len() as int) =~= rest);
    lemma_trim_keeps(a);
    lemma_trim_keeps(trim_start(a));
    assert forall|k: int| 0 <= k < trim(a).len() implies trim(a)[k] != '\n' by {
        assert(trim(a)[k] == trim_start(a)[k]);
        assert(trim_start(a)[k] == a[a.len() - trim_start(a).len() + k]);
    }
    lemma_instructions_shape();
    lemma_trim_around(b0, p, b1);
    lemma_trim_keeps(b0);
    lemma_trim_keeps(b1);
    lemma_no_opening_piece(b0, b0.len() - trim_start(b0).len(), b0.len() as int);
    lemma_no_opening_piece(b1, 0, trim_end(b1).len() as int);
    lemma_remove_block(trim_start(b0), p, trim_end(b1));
    lemma_trim_joined(b0, b1);
}


} // verus!
