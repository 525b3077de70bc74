use vstd::prelude::*;
use crate::text::{
    concat, is_space, lemma_pieces_len, lemma_skip_leading, lemma_skip_trailing, option_text,
    pieces, same_text, split, texts, trim, trimmed, whitespace,
};

verus! {

/// The rule that keeps the directory of the worktrees out of version control.
pub open spec fn ignore_rule() -> Seq<char> {
    ".codex-worktrees/"@
}

/// Whether some line of an ignore file is the rule, whitespace at its ends aside.
pub open spec fn has_rule(text: Seq<char>) -> bool {
    exists|i: int|
        0 <= i < pieces(text, '\n').len() && trimmed(#[trigger] pieces(text, '\n')[i])
            == ignore_rule()
}

/// What is appended to an ignore file so that it has the rule: nothing
/// where it has it; else the rule on a line of its own, after a newline
/// where the file does not end in one.
pub open spec fn rule_addition(text: Seq<char>) -> Option<Seq<char>> {
    if has_rule(text) {
        None
    } else if text.len() > 0 && text.last() != '\n' {
        Some(seq!['\n'] + ignore_rule().push('\n'))
    } else {
        Some(ignore_rule().push('\n'))
    }
}

/// Says what is to be appended to an ignore file so that it has the rule.
pub fn ignore_rule_addition(existing: &str) -> (r: Option<String>)
    ensures
        option_text(r) == rule_addition(existing@),
{
    let lines = split(existing, '\n');
    let mut i: usize = 0;
    while i < lines.len()
        invariant
            i <= lines.len(),
            texts(lines@) == pieces(existing@, '\n'),
            forall|k: int| 0 <= k < i ==> trimmed(#[trigger] pieces(existing@, '\n')[k]) != ignore_rule(),
        decreases lines.len() - i,
    {
        let line = trim(lines[i].as_str());
        assert(texts(lines@)[i as int] == lines@[i as int]@);
        if same_text(line.as_str(), ".codex-worktrees/") {
            assert(trimmed(pieces(existing@, '\n')[i as int]) == ignore_rule());
            return None;
        }
        i += 1;
    }
    let chars = crate::text::chars_of(existing);
    if chars.len() > 0 && chars[chars.len() - 1] != '\n' {
        let r = concat("\n", ".codex-worktrees/\n");
        proof {
            lemma_rule_texts();
            assert(r@ =~= seq!['\n'] + ignore_rule().push('\n'));
        }
        Some(r)
    } else {
        let r = ".codex-worktrees/\n".to_owned();
        proof {
            lemma_rule_texts();
        }
        Some(r)
    }
}

/// The literal texts of the rule.
pub proof fn lemma_rule_texts()
    ensures
        "\n"@ == seq!['\n'],
        ".codex-worktrees/\n"@ == ignore_rule().push('\n'),
        ignore_rule().len() == 17,
        ignore_rule()[0] == '.',
        ignore_rule().last() == '/',
        forall|i: int| 0 <= i < ignore_rule().len() ==> ignore_rule()[i] != '\n',
{
    reveal_strlit("\n");
    reveal_strlit(".codex-worktrees/\n");
    reveal_strlit(".codex-worktrees/");
    assert("\n"@ =~= seq!['\n']);
    assert(".codex-worktrees/\n"@ =~= ignore_rule().push('\n'));
}

/// A text that neither starts nor ends with whitespace is its own trimmed form.
pub proof fn lemma_trimmed_is_same(s: Seq<char>)
    requires
        s.len() > 0,
        !whitespace(s[0]),
        !whitespace(s.last()),
    ensures
        trimmed(s) == s,
{
    lemma_skip_leading(s, is_space(), 0);
    assert(s.skip(0) =~= s);
    lemma_skip_trailing(s, is_space(), s.len() as int);
    assert(s.take(s.len() as int) =~= s);
}

/// Text without the separator that is appended to a text goes to the end
/// of its last piece.
pub proof fn lemma_pieces_extend(s: Seq<char>, tail: Seq<char>, sep: char)
    requires
        forall|i: int| 0 <= i < tail.len() ==> tail[i] != sep,
    ensures
        pieces(s + tail, sep) == pieces(s, sep).drop_last().push(pieces(s, sep).last() + tail),
    decreases tail.len(),
{
    lemma_pieces_len(s, sep);
    if tail.len() == 0 {
        assert(s + tail =~= s);
        assert(pieces(s, sep).last() + tail =~= pieces(s, sep).last());
        assert(pieces(s, sep).drop_last().push(pieces(s, sep).last()) =~= pieces(s, sep));
    } else {
        let head = tail.drop_last();
        lemma_pieces_extend(s, head, sep);
        assert((s + tail).drop_last() =~= s + head);
        assert((s + tail).last() == tail.last());
        let before = pieces(s + head, sep);
        assert(before.last() == pieces(s, sep).last() + head);
        assert(before.drop_last() =~= pieces(s, sep).drop_last());
        assert(before.last().push(tail.last()) =~= pieces(s, sep).last() + tail);
    }
}

/// Appending what `rule_addition` gives puts the rule into the file, and a
/// file that has the rule gets nothing appended: adding the rule twice
/// adds it once.
pub proof fn law_rule_added_once(text: Seq<char>)
    ensures
        has_rule(text) ==> rule_addition(text) is None,
        rule_addition(text) matches Some(addition) ==> has_rule(text + addition)
            && rule_addition(text + addition) is None,
{
    if !has_rule(text) {
        lemma_rule_texts();
        let rule = ignore_rule();
        let addition = rule_addition(text)->0;
        let start = if text.len() > 0 && text.last() != '\n' {
            text.push('\n')
        } else {
            text
        };
        lemma_pieces_len(start, '\n');
        if start.len() > 0 {
            assert(start.last() == '\n');
            assert(pieces(start, '\n').last() == Seq::<char>::empty());
        }
        assert(pieces(start, '\n').last() =~= Seq::<char>::empty());
        lemma_pieces_extend(start, rule, '\n');
        let with_rule = start + rule;
        assert(pieces(with_rule, '\n').last() =~= rule);
        let whole = with_rule.push('\n');
        assert(whole =~= text + addition);
        assert(whole.drop_last() =~= with_rule);
        let all = pieces(whole, '\n');
        assert(all == pieces(with_rule, '\n').push(Seq::<char>::empty()));
        lemma_pieces_len(with_rule, '\n');
        let at = all.len() - 2;
        assert(all[at] == rule);
        lemma_trimmed_is_same(rule);
        assert(trimmed(pieces(text + addition, '\n')[at]) == ignore_rule());
    }
}

} // verus!
