//! Simultaneous multi-pattern substitution with leftmost-first match
//! policy, and the fixed localization table.
//!
//! At each text position, the first pattern in table order that matches
//! there is replaced; scanning resumes right after the replaced span,
//! so replaced text is never rescanned. Patterns earlier in the table
//! win over later ones that match at the same position.

use vstd::prelude::*;

use crate::errors::TransformError;

verus! {

/// Whether the non-empty pattern `pat` matches `s` at position `i`.
pub open spec fn pat_matches_at(pat: Seq<char>, s: Seq<char>, i: int) -> bool {
    pat.len() > 0 && 0 <= i && i + pat.len() <= s.len() && s.subrange(i, i + pat.len() as int)
        == pat
}

/// The index of the first pattern, at or after `j` in table order, that
/// matches `s` at position `i`.
pub open spec fn first_match_from(pats: Seq<Seq<char>>, s: Seq<char>, i: int, j: int) -> Option<
    int,
>
    decreases pats.len() - j,
{
    if !(0 <= j < pats.len()) {
        None
    } else if pat_matches_at(pats[j], s, i) {
        Some(j)
    } else {
        first_match_from(pats, s, i, j + 1)
    }
}

/// The substitution of `s` from position `i` on: at each position the
/// first matching pattern (in table order) is replaced and scanning
/// resumes after the match; otherwise the character is kept.
pub open spec fn replace_from(
    pats: Seq<Seq<char>>,
    reps: Seq<Seq<char>>,
    s: Seq<char>,
    i: int,
) -> Seq<char>
    decreases s.len() - i,
{
    if !(0 <= i < s.len()) {
        Seq::empty()
    } else {
        let fm = first_match_from(pats, s, i, 0);
        if fm is Some && pat_matches_at(pats[fm.unwrap()], s, i) && 0 <= fm.unwrap() < reps.len() {
            reps[fm.unwrap()] + replace_from(pats, reps, s, i + pats[fm.unwrap()].len() as int)
        } else {
            seq![s[i]] + replace_from(pats, reps, s, i + 1)
        }
    }
}

/// The full leftmost-first simultaneous replacement of `s`.
pub open spec fn replace_spec(pats: Seq<Seq<char>>, reps: Seq<Seq<char>>, s: Seq<char>) -> Seq<
    char,
> {
    replace_from(pats, reps, s, 0)
}

#[verifier::external_type_specification]
#[verifier::external_body]
pub struct ExAcBuildError(aho_corasick::BuildError);

/// Whether the matching automaton can be built for this pattern list;
/// deterministic in the patterns (the build fails only on internal
/// size limits, a function of the patterns alone).
pub uninterp spec fn ac_build_ok(pats: Seq<Seq<char>>) -> bool;

/// Relies on aho_corasick::AhoCorasick with MatchKind::LeftmostFirst
/// and replace_all: matches are non-overlapping; among candidates the
/// leftmost starting position is preferred and, at equal starts, the
/// pattern with the lowest index; each match is replaced by the
/// replacement of the same index and the scan resumes after it. The
/// automaton works on UTF-8 bytes; for valid UTF-8 patterns and text,
/// whole-pattern byte matches fall on character boundaries, so the
/// behaviour over characters is `replace_spec`.
#[verifier::external_body]
fn ac_replace_all(pats: &Vec<String>, reps: &Vec<String>, text: &str) -> (r: Result<
    String,
    aho_corasick::BuildError,
>)
    requires
        pats@.len() == reps@.len(),
        forall|j: int| 0 <= j < pats@.len() ==> pats@[j]@.len() > 0,
    ensures
        r is Ok <==> ac_build_ok(pats@.map_values(|p: String| p@)),
        r matches Ok(out) ==> out@ == replace_spec(
            pats@.map_values(|p: String| p@),
            reps@.map_values(|p: String| p@),
            text@,
        ),
{
    let ac = aho_corasick::AhoCorasickBuilder::new().match_kind(
        aho_corasick::MatchKind::LeftmostFirst,
    ).build(pats.iter())?;
    Ok(ac.replace_all(text, reps.as_slice()))
}

/// Replaces, simultaneously and leftmost-first, every occurrence of a
/// pattern of `pats` in `text` by the replacement of the same index.
/// Fails with `BuildError` only if the matching automaton cannot be
/// built.
pub fn substitute(pats: &Vec<String>, reps: &Vec<String>, text: &str) -> (r: Result<
    String,
    TransformError,
>)
    requires
        pats@.len() == reps@.len(),
        forall|j: int| 0 <= j < pats@.len() ==> pats@[j]@.len() > 0,
    ensures
        r is Ok <==> ac_build_ok(pats@.map_values(|p: String| p@)),
        r matches Ok(out) ==> out@ == replace_spec(
            pats@.map_values(|p: String| p@),
            reps@.map_values(|p: String| p@),
            text@,
        ),
        r matches Err(e) ==> e == TransformError::BuildError,
{
    match ac_replace_all(pats, reps, text) {
        Ok(out) => Ok(out),
        Err(_) => Err(TransformError::BuildError),
    }
}

/// The fixed table's patterns: Russian interface phrases and the
/// branding strings of the quiz-hosting site, in priority order.
pub open spec fn table_pats() -> Seq<Seq<char>> {
    seq![
        "Далее"@,
        "Завершить"@,
        "Количество вопросов в тесте"@,
        "Ответьте, пожалуйста, на вопрос"@,
        "Показать мои ответы"@,
        "Показать мой результат"@,
        "Показатель"@,
        "Значение"@,
        "Количество баллов (правильных ответов)"@,
        "Максимально возможное количество баллов"@,
        "Процент"@,
        "из"@,
        "Powered by"@,
        "Online Test Pad"@,
        "http://onlinetestpad.com"@,
    ]
}

/// The fixed table's replacements: the Ukrainian phrases, deletion of
/// the branding, and the replacement link.
pub open spec fn table_reps() -> Seq<Seq<char>> {
    seq![
        "Далі"@,
        "Закінчити"@,
        "Кількість питань в тесті"@,
        "Дайте відповідь на запитання"@,
        "Мої відповіді"@,
        "Mій результат"@,
        "Показник"@,
        "Значення"@,
        "Кількість балів (правильних відповідей)"@,
        "Максимальна кількість балів"@,
        "Відсоток"@,
        "з"@,
        ""@,
        ""@,
        "https://www.youtube.com/watch?v=dQw4w9WgXcQ"@,
    ]
}

/// The table is well formed: both sides have fifteen entries and every
/// pattern is non-empty.
pub proof fn lemma_table_wf()
    ensures
        table_pats().len() == 15,
        table_reps().len() == 15,
        forall|j: int| 0 <= j < table_pats().len() ==> #[trigger] table_pats()[j].len() > 0,
{
    reveal_strlit("Далее");
    reveal_strlit("Завершить");
    reveal_strlit("Количество вопросов в тесте");
    reveal_strlit("Ответьте, пожалуйста, на вопрос");
    reveal_strlit("Показать мои ответы");
    reveal_strlit("Показать мой результат");
    reveal_strlit("Показатель");
    reveal_strlit("Значение");
    reveal_strlit("Количество баллов (правильных ответов)");
    reveal_strlit("Максимально возможное количество баллов");
    reveal_strlit("Процент");
    reveal_strlit("из");
    reveal_strlit("Powered by");
    reveal_strlit("Online Test Pad");
    reveal_strlit("http://onlinetestpad.com");
    assert forall|j: int| 0 <= j < table_pats().len() implies #[trigger] table_pats()[j].len()
        > 0 by {
        if j == 0 {
            assert(table_pats()[0].len() > 0);
        }
    }
}

/// Builds the pattern side of the fixed table.
pub fn patterns() -> (r: Vec<String>)
    ensures
        r@.map_values(|p: String| p@) == table_pats(),
{
    let mut v: Vec<String> = Vec::new();
    v.push("Далее".to_owned());
    v.push("Завершить".to_owned());
    v.push("Количество вопросов в тесте".to_owned());
    v.push("Ответьте, пожалуйста, на вопрос".to_owned());
    v.push("Показать мои ответы".to_owned());
    v.push("Показать мой результат".to_owned());
    v.push("Показатель".to_owned());
    v.push("Значение".to_owned());
    v.push("Количество баллов (правильных ответов)".to_owned());
    v.push("Максимально возможное количество баллов".to_owned());
    v.push("Процент".to_owned());
    v.push("из".to_owned());
    v.push("Powered by".to_owned());
    v.push("Online Test Pad".to_owned());
    v.push("http://onlinetestpad.com".to_owned());
    proof {
        assert(v@.map_values(|p: String| p@) =~= table_pats());
    }
    v
}

/// Builds the replacement side of the fixed table.
pub fn replacements() -> (r: Vec<String>)
    ensures
        r@.map_values(|p: String| p@) == table_reps(),
{
    let mut v: Vec<String> = Vec::new();
    v.push("Далі".to_owned());
    v.push("Закінчити".to_owned());
    v.push("Кількість питань в тесті".to_owned());
    v.push("Дайте відповідь на запитання".to_owned());
    v.push("Мої відповіді".to_owned());
    v.push("Mій результат".to_owned());
    v.push("Показник".to_owned());
    v.push("Значення".to_owned());
    v.push("Кількість балів (правильних відповідей)".to_owned());
    v.push("Максимальна кількість балів".to_owned());
    v.push("Відсоток".to_owned());
    v.push("з".to_owned());
    v.push("".to_owned());
    v.push("".to_owned());
    v.push("https://www.youtube.com/watch?v=dQw4w9WgXcQ".to_owned());
    proof {
        assert(v@.map_values(|p: String| p@) =~= table_reps());
    }
    v
}

/// Applies the fixed localization table to `text`, simultaneously and
/// leftmost-first.
pub fn localize_text(text: &str) -> (r: Result<String, TransformError>)
    ensures
        r is Ok <==> ac_build_ok(table_pats()),
        r matches Ok(out) ==> out@ == replace_spec(table_pats(), table_reps(), text@),
        r matches Err(e) ==> e == TransformError::BuildError,
{
    let pats = patterns();
    let reps = replacements();
    proof {
        lemma_table_wf();
        assert forall|j: int| 0 <= j < pats@.len() implies pats@[j]@.len() > 0 by {
            assert(pats@.map_values(|p: String| p@)[j] == pats@[j]@);
        }
    }
    substitute(&pats, &reps, text)
}

/// A matching pattern is never beaten by one later in the table: the
/// chosen index is at most the index of any pattern matching there.
pub proof fn lemma_earlier_pattern_wins(
    pats: Seq<Seq<char>>,
    reps: Seq<Seq<char>>,
    s: Seq<char>,
    i: int,
    j: int,
)
    requires
        0 <= j < pats.len(),
        pats.len() == reps.len(),
        pat_matches_at(pats[j], s, i),
    ensures
        first_match_from(pats, s, i, 0) matches Some(w) && w <= j && pat_matches_at(pats[w], s, i)
            && replace_from(pats, reps, s, i) == reps[w] + replace_from(
            pats,
            reps,
            s,
            i + pats[w].len() as int,
        ),
{
    lemma_first_match_min(pats, s, i, 0, j);
}

/// Helper: scanning from position `j0` of the table finds a match at
/// or before any matching index `j >= j0`.
proof fn lemma_first_match_min(pats: Seq<Seq<char>>, s: Seq<char>, i: int, j0: int, j: int)
    requires
        0 <= j0 <= j < pats.len(),
        pat_matches_at(pats[j], s, i),
    ensures
        first_match_from(pats, s, i, j0) matches Some(w) && j0 <= w <= j && pat_matches_at(
            pats[w],
            s,
            i,
        ),
    decreases j - j0,
{
    if pat_matches_at(pats[j0], s, i) {
    } else {
        lemma_first_match_min(pats, s, i, j0 + 1, j);
    }
}

} // verus!
