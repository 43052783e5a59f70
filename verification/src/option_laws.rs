//! What holds of every command line.

use vstd::prelude::*;
use crate::options::{
    assignment_prefix, chosen_file, ends_whole, flag_name, inline_option, is_first_open,
    is_unknown_flag, launch_options, named_option, open_word, operands_of, scan,
    tokens_after_program, LaunchField, Scan,
};
use crate::text::{is_dashed, stripped};

verus! {

/// The shapes of the flags: each starts with two dashes and differs from the
/// others in its third character, and each assignment prefix is its flag
/// followed by an equals sign.
pub proof fn lemma_flag_shapes(field: LaunchField)
    ensures
        flag_name(field).len() >= 5,
        flag_name(field)[0] == '-',
        assignment_prefix(field) == flag_name(field).push('='),
        flag_name(field)[2] == (match field {
            LaunchField::BundleDir => 'b',
            LaunchField::PrinciplesPath => 'p',
            LaunchField::OutPath => 'o',
        }),
{
    reveal_strlit("--bundle-dir");
    reveal_strlit("--principles");
    reveal_strlit("--out");
    reveal_strlit("--bundle-dir=");
    reveal_strlit("--principles=");
    reveal_strlit("--out=");
    assert(assignment_prefix(field) =~= flag_name(field).push('='));
}

/// A flag is not a prefix of another flag's assignment, nor the other way round.
proof fn lemma_flags_apart(token: Seq<char>, field: LaunchField, other: LaunchField)
    requires
        field != other,
        token.len() > 2,
        token[2] == flag_name(field)[2],
    ensures
        token != flag_name(other),
        stripped(token, assignment_prefix(other)).is_none(),
{
    lemma_flag_shapes(field);
    lemma_flag_shapes(other);
    let prefix = assignment_prefix(other);
    if prefix.is_prefix_of(token) {
        assert(token.subrange(0, prefix.len() as int)[2] == prefix[2]);
    }
}

/// A token made of an assignment prefix and a value is read as that
/// assignment, and is not a flag.
pub proof fn lemma_assignment_token(field: LaunchField, value: Seq<char>)
    ensures
        named_option(assignment_prefix(field) + value).is_none(),
        inline_option(assignment_prefix(field) + value) == Some((field, value)),
{
    let prefix = assignment_prefix(field);
    let token = prefix + value;
    lemma_flag_shapes(field);
    assert(token[2] == flag_name(field)[2]);
    assert(token.subrange(0, prefix.len() as int) =~= prefix);
    assert(token.skip(prefix.len() as int) =~= value);
    assert(stripped(token, prefix) == Some(value));
    assert(token != flag_name(field));
    if field != LaunchField::BundleDir {
        lemma_flags_apart(token, field, LaunchField::BundleDir);
    }
    if field != LaunchField::PrinciplesPath {
        lemma_flags_apart(token, field, LaunchField::PrinciplesPath);
    }
    if field != LaunchField::OutPath {
        lemma_flags_apart(token, field, LaunchField::OutPath);
    }
}

/// A flag by itself is a dashed token that names its option and assigns nothing.
pub proof fn lemma_bare_flag(field: LaunchField)
    ensures
        named_option(flag_name(field)) == Some(field),
        inline_option(flag_name(field)).is_none(),
        is_dashed(flag_name(field)),
{
    let token = flag_name(field);
    lemma_flag_shapes(field);
    assert(!assignment_prefix(field).is_prefix_of(token));
    if field != LaunchField::BundleDir {
        lemma_flags_apart(token, field, LaunchField::BundleDir);
    }
    if field != LaunchField::PrinciplesPath {
        lemma_flags_apart(token, field, LaunchField::PrinciplesPath);
    }
    if field != LaunchField::OutPath {
        lemma_flags_apart(token, field, LaunchField::OutPath);
    }
}

/// Tokens that end where a token ends are scanned by themselves: the scan of
/// what follows them is joined to theirs.
pub proof fn lemma_scan_concat(before: Seq<Seq<char>>, rest: Seq<Seq<char>>)
    requires
        ends_whole(before),
    ensures
        scan(before + rest) == scan(before).then_scan(scan(rest)),
    decreases before.len(),
{
    let whole = before + rest;
    if before.len() == 0 {
        assert(whole =~= rest);
        assert(Scan::empty().then_scan(scan(rest)).positionals =~= scan(rest).positionals);
    } else {
        assert(whole[0] == before[0]);
        if named_option(before[0]).is_some() {
            assert(whole[1] == before[1]);
            assert(whole.skip(2) =~= before.skip(2) + rest);
            lemma_scan_concat(before.skip(2), rest);
        } else {
            assert(whole.skip(1) =~= before.skip(1) + rest);
            lemma_scan_concat(before.skip(1), rest);
            let head = scan(before.skip(1));
            assert(seq![before[0]] + (head.positionals + scan(rest).positionals) =~= (seq![
                before[0],
            ] + head.positionals) + scan(rest).positionals);
        }
    }
}

/// The program's name has no part in the options: two command lines that
/// differ in their first token alone give the same options.
pub proof fn law_program_name_is_skipped(
    program: Seq<char>,
    other: Seq<char>,
    tokens: Seq<Seq<char>>,
)
    ensures
        launch_options(seq![program] + tokens) == launch_options(seq![other] + tokens),
{
    assert(tokens_after_program(seq![program] + tokens) =~= tokens);
    assert(tokens_after_program(seq![other] + tokens) =~= tokens);
}

/// Where `open` stands among the operands and an operand follows its first
/// occurrence, that operand is the document to open, whatever other operands
/// stand before or after.
pub proof fn law_open_selects_next_operand(args: Seq<Seq<char>>, k: int)
    requires
        is_first_open(operands_of(args), k),
        k + 1 < operands_of(args).len(),
    ensures
        launch_options(args).file_path == Some(operands_of(args)[k + 1]),
{
    lemma_first_open_unique(operands_of(args), k);
}

/// Where nothing follows the first `open`, no document is chosen: there is no
/// falling back on the first operand.
pub proof fn law_open_at_end_selects_nothing(args: Seq<Seq<char>>, k: int)
    requires
        is_first_open(operands_of(args), k),
        k + 1 == operands_of(args).len(),
    ensures
        launch_options(args).file_path.is_none(),
{
    lemma_first_open_unique(operands_of(args), k);
}

/// Without an `open` among the operands, the first operand is the document to open.
pub proof fn law_first_operand_without_open(args: Seq<Seq<char>>)
    requires
        operands_of(args).len() > 0,
        forall|j: int| 0 <= j < operands_of(args).len() ==> operands_of(args)[j] != open_word(),
    ensures
        launch_options(args).file_path == Some(operands_of(args)[0]),
{
    let operands = operands_of(args);
    assert forall|k: int| !is_first_open(operands, k) by {
        if 0 <= k < operands.len() {
            assert(operands[k] != open_word());
        }
    }
}

/// Without operands no document is chosen.
pub proof fn law_no_operand_no_file(args: Seq<Seq<char>>)
    requires
        operands_of(args).len() == 0,
    ensures
        launch_options(args).file_path.is_none(),
{
}

/// The place of the first `open` is unique.
pub proof fn lemma_first_open_unique(operands: Seq<Seq<char>>, k: int)
    requires
        is_first_open(operands, k),
    ensures
        exists|w: int| is_first_open(operands, w),
        (choose|w: int| is_first_open(operands, w)) == k,
{
    let w = choose|w: int| is_first_open(operands, w);
    if w < k {
        assert(operands[w] != open_word());
    }
    if k < w {
        assert(operands[k] != open_word());
    }
}

/// An option gets the same value from `--flag=value` as from `--flag value`,
/// and the rest of the command line is read alike after either.
pub proof fn law_assignment_forms_agree(
    program: Seq<char>,
    before: Seq<Seq<char>>,
    field: LaunchField,
    value: Seq<char>,
    after: Seq<Seq<char>>,
)
    requires
        ends_whole(before),
    ensures
        launch_options(seq![program] + before + seq![assignment_prefix(field) + value] + after)
            == launch_options(seq![program] + before + seq![flag_name(field), value] + after),
        scan(seq![assignment_prefix(field) + value] + after).get(field) == Some(
            match scan(after).get(field) {
                Some(later) => later,
                None => value,
            },
        ),
{
    let joint = seq![assignment_prefix(field) + value] + after;
    let spaced = seq![flag_name(field), value] + after;
    let left = seq![program] + before + joint;
    let right = seq![program] + before + spaced;
    assert(left =~= seq![program] + before + seq![assignment_prefix(field) + value] + after);
    assert(right =~= seq![program] + before + seq![flag_name(field), value] + after);
    assert(tokens_after_program(left) =~= before + joint);
    assert(tokens_after_program(right) =~= before + spaced);
    lemma_scan_concat(before, joint);
    lemma_scan_concat(before, spaced);
    lemma_assignment_token(field, value);
    lemma_bare_flag(field);
    assert(joint.skip(1) =~= after);
    assert(spaced.skip(2) =~= after);
    assert(scan(joint) == scan(spaced));
}

/// A flag at the very end, with no token left for its value, sets nothing.
pub proof fn law_trailing_flag_is_dropped(
    program: Seq<char>,
    before: Seq<Seq<char>>,
    field: LaunchField,
)
    requires
        ends_whole(before),
    ensures
        launch_options(seq![program] + before + seq![flag_name(field)]) == launch_options(
            seq![program] + before,
        ),
        launch_options(seq![program, flag_name(field)]) == (crate::options::LaunchView {
            file_path: None,
            bundle_dir: None,
            principles_path: None,
            out_path: None,
        }),
{
    let last = seq![flag_name(field)];
    let left = seq![program] + before + last;
    let right = seq![program] + before;
    assert(tokens_after_program(left) =~= before + last);
    assert(tokens_after_program(right) =~= before);
    assert(tokens_after_program(seq![program, flag_name(field)]) =~= last);
    lemma_scan_concat(before, last);
    lemma_bare_flag(field);
    assert(last.skip(1) =~= Seq::<Seq<char>>::empty());
    assert(scan(last.skip(1)) == Scan::empty());
    assert(scan(last) == Scan::empty());
    assert(scan(before).positionals + Seq::<Seq<char>>::empty() =~= scan(before).positionals);
    assert(scan(before).then_scan(Scan::empty()) == scan(before));
    assert(!exists|k: int| is_first_open(Seq::<Seq<char>>::empty(), k));
}

/// A flag without meaning here, standing where a token starts, changes no
/// field, and the tokens after it are read as if it were not there.
pub proof fn law_unknown_flag_is_ignored(
    program: Seq<char>,
    before: Seq<Seq<char>>,
    flag: Seq<char>,
    after: Seq<Seq<char>>,
)
    requires
        ends_whole(before),
        is_unknown_flag(flag),
    ensures
        launch_options(seq![program] + before + seq![flag] + after) == launch_options(
            seq![program] + before + after,
        ),
{
    let tail = seq![flag] + after;
    let left = seq![program] + before + seq![flag] + after;
    let right = seq![program] + before + after;
    assert(tokens_after_program(left) =~= before + tail);
    assert(tokens_after_program(right) =~= before + after);
    lemma_scan_concat(before, tail);
    lemma_scan_concat(before, after);
    assert(tail.skip(1) =~= after);
    assert(scan(tail) == scan(after));
}

} // verus!
