//! Names for report files: the base name first, then the base name with a
//! running number, until one is found that no existing file has.

use vstd::prelude::*;
use vstd::relations::injective_on;
use vstd::seq_lib::seq_to_set_is_finite;
use vstd::set_lib::{lemma_int_range, lemma_len_subset, lemma_map_size, set_int_range};
use crate::text::{decimal, decimal_string, digit, texts};

verus! {

/// The name that a report gets where no file has it yet.
pub const REPORT_FILE: &'static str = "show_data.json";

/// The extension of a report file.
pub open spec fn json_suffix() -> Seq<char> {
    seq!['.', 'j', 's', 'o', 'n']
}

/// Whether the name ends with the extension.
pub open spec fn ends_with_json(name: Seq<char>) -> bool {
    name.len() >= 5 && name.subrange(name.len() - 5, name.len() as int) == json_suffix()
}

/// The name without its extension, however often the extension is repeated
/// at its end.
pub open spec fn stem_of(name: Seq<char>) -> Seq<char>
    decreases name.len(),
{
    if ends_with_json(name) {
        stem_of(name.subrange(0, name.len() - 5))
    } else {
        name
    }
}

/// The name tried at the given attempt: the stem with the extension at
/// first, then the stem, a hyphen, the attempt's number and the extension.
pub open spec fn candidate(base: Seq<char>, attempt: nat) -> Seq<char> {
    if attempt == 0 {
        stem_of(base) + json_suffix()
    } else {
        stem_of(base) + seq!['-'] + decimal(attempt) + json_suffix()
    }
}

/// The attempt is the first whose name is not taken.
pub open spec fn first_free(base: Seq<char>, taken: Seq<Seq<char>>, attempt: nat) -> bool {
    &&& !taken.contains(candidate(base, attempt))
    &&& forall|earlier: nat|
        earlier < attempt ==> taken.contains(#[trigger] candidate(base, earlier))
}

/// The first of the candidate names that is not taken.
pub open spec fn unique_name(base: Seq<char>, taken: Seq<Seq<char>>) -> Seq<char> {
    candidate(base, choose|attempt: nat| first_free(base, taken, attempt))
}

/// Different numbers have different numerals.
pub proof fn lemma_decimal_injective(a: nat, b: nat)
    requires
        decimal(a) == decimal(b),
    ensures
        a == b,
    decreases a,
{
    lemma_decimal_len(a);
    lemma_decimal_len(b);
    assert(decimal(a).last() == digit(a % 10) && decimal(b).last() == digit(b % 10));
    if a >= 10 && b >= 10 {
        assert(decimal(a).drop_last() =~= decimal(a / 10));
        assert(decimal(b).drop_last() =~= decimal(b / 10));
        lemma_decimal_injective(a / 10, b / 10);
    }
}

proof fn lemma_decimal_len(n: nat)
    ensures
        decimal(n).len() >= 1,
        n >= 10 ==> decimal(n).len() >= 2,
    decreases n,
{
    if n >= 10 {
        lemma_decimal_len(n / 10);
    }
}

/// Different attempts try different names.
pub proof fn lemma_candidate_injective(base: Seq<char>, a: nat, b: nat)
    requires
        candidate(base, a) == candidate(base, b),
    ensures
        a == b,
{
    let stem = stem_of(base);
    lemma_decimal_len(a);
    lemma_decimal_len(b);
    if a != 0 && b != 0 {
        let name = candidate(base, b);
        assert(name.len() == stem.len() + 1 + decimal(b).len() + 5);
        assert forall|i: int| 0 <= i < decimal(a).len() implies decimal(a)[i] == decimal(b)[i] by {
            assert(name[stem.len() + 1 + i] == decimal(b)[i]);
        }
        assert(decimal(a) =~= decimal(b));
        lemma_decimal_injective(a, b);
    } else {
        assert(candidate(base, 0).len() == stem.len() + 5);
    }
}

/// Names taken by the first `n` attempts are `n` different names.
proof fn lemma_attempts_fit(base: Seq<char>, taken: Seq<Seq<char>>, n: nat)
    requires
        forall|k: nat| k < n ==> taken.contains(#[trigger] candidate(base, k)),
    ensures
        n <= taken.len(),
{
    let attempts = set_int_range(0, n as int);
    let name = |k: int| candidate(base, k as nat);
    let names = attempts.map(name);
    lemma_int_range(0, n as int);
    assert(injective_on(name, attempts)) by {
        assert forall|x: int, y: int|
            attempts.contains(x) && attempts.contains(y) && #[trigger] name(x) == #[trigger] name(
                y,
            ) implies x == y by {
            lemma_candidate_injective(base, x as nat, y as nat);
        }
    }
    lemma_map_size(attempts, names, name);
    seq_to_set_is_finite(taken);
    lemma_len_subset(names, taken.to_set());
    taken.lemma_cardinality_of_set();
}

/// Some attempt is the first whose name is not taken, and only one is; the
/// unique name is its name, and it is not taken.
pub proof fn lemma_unique_name(base: Seq<char>, taken: Seq<Seq<char>>) -> (attempt: nat)
    ensures
        first_free(base, taken, attempt),
        attempt <= taken.len(),
        unique_name(base, taken) == candidate(base, attempt),
        !taken.contains(unique_name(base, taken)),
{
    let attempt = lemma_first_free_from(base, taken, 0);
    let chosen = choose|attempt: nat| first_free(base, taken, attempt);
    lemma_first_free_unique(base, taken, attempt, chosen);
    attempt
}

proof fn lemma_first_free_from(base: Seq<char>, taken: Seq<Seq<char>>, from: nat) -> (attempt:
    nat)
    requires
        forall|k: nat| k < from ==> taken.contains(#[trigger] candidate(base, k)),
    ensures
        first_free(base, taken, attempt),
        attempt <= taken.len(),
    decreases taken.len() - from,
{
    lemma_attempts_fit(base, taken, from);
    if taken.contains(candidate(base, from)) {
        lemma_attempts_fit(base, taken, from + 1);
        lemma_first_free_from(base, taken, from + 1)
    } else {
        from
    }
}

/// Only one attempt is the first whose name is not taken.
pub proof fn lemma_first_free_unique(base: Seq<char>, taken: Seq<Seq<char>>, a: nat, b: nat)
    requires
        first_free(base, taken, a),
        first_free(base, taken, b),
    ensures
        a == b,
{
}

/// Writing a report under the unique name and asking again gives another
/// name, one that neither the files before nor the new report has.
pub proof fn lemma_next_name_is_new(base: Seq<char>, taken: Seq<Seq<char>>)
    ensures
        unique_name(base, taken.push(unique_name(base, taken))) != unique_name(base, taken),
        !taken.contains(unique_name(base, taken.push(unique_name(base, taken)))),
{
    let first = unique_name(base, taken);
    let after = taken.push(first);
    lemma_unique_name(base, after);
    let second = unique_name(base, after);
    assert(after[taken.len() as int] == first);
    if taken.contains(second) {
        let i = choose|i: int| 0 <= i < taken.len() && taken[i] == second;
        assert(after[i] == second);
    }
}

fn ends_at(name: &str, end: usize) -> (found: bool)
    requires
        5 <= end <= name@.len(),
    ensures
        found == (name@.subrange(end - 5, end as int) == json_suffix()),
{
    let found = name.get_char(end - 5) == '.' && name.get_char(end - 4) == 'j' && name.get_char(
        end - 3,
    ) == 's' && name.get_char(end - 2) == 'o' && name.get_char(end - 1) == 'n';
    assert(found ==> name@.subrange(end - 5, end as int) =~= json_suffix());
    found
}

/// The name without its extension, however often the extension is repeated
/// at its end.
pub fn stem(name: &str) -> (stem: &str)
    ensures
        stem@ == stem_of(name@),
{
    let mut end: usize = name.unicode_len();
    assert(name@.subrange(0, end as int) =~= name@);
    while end >= 5 && ends_at(name, end)
        invariant
            end <= name@.len(),
            stem_of(name@) == stem_of(name@.subrange(0, end as int)),
        decreases end,
    {
        proof {
            let kept = name@.subrange(0, end as int);
            assert(kept.subrange(kept.len() - 5, kept.len() as int) =~= name@.subrange(
                end - 5,
                end as int,
            ));
            assert(kept.subrange(0, kept.len() - 5) =~= name@.subrange(0, end - 5));
        }
        end -= 5;
    }
    proof {
        let kept = name@.subrange(0, end as int);
        if end >= 5 {
            assert(kept.subrange(kept.len() - 5, kept.len() as int) =~= name@.subrange(
                end - 5,
                end as int,
            ));
        }
    }
    name.substring_char(0, end)
}

/// The name tried at the given attempt.
pub fn candidate_name(base_name: &str, attempt: u64) -> (name: String)
    ensures
        name@ == candidate(base_name@, attempt as nat),
{
    proof {
        reveal_strlit("-");
        reveal_strlit(".json");
    }
    let mut name = stem(base_name).to_owned();
    if attempt > 0 {
        name.append("-");
        name.append(decimal_string(attempt).as_str());
    }
    name.append(".json");
    name
}

fn is_listed(existing: &Vec<String>, name: &String) -> (listed: bool)
    ensures
        listed == texts(existing@).contains(name@),
{
    let mut i: usize = 0;
    while i < existing.len()
        invariant
            i <= existing@.len(),
            forall|k: int| 0 <= k < i ==> texts(existing@)[k] != name@,
        decreases existing@.len() - i,
    {
        if existing[i] == *name {
            assert(texts(existing@)[i as int] == name@);
            return true;
        }
        i += 1;
    }
    false
}

/// A name for a new report that no existing file has: the base name with the
/// extension `.json` if that is free, else the first of `-1`, `-2`, ... put
/// before the extension that gives a free name.
pub fn get_unique_filename(base_name: &str, existing: &Vec<String>) -> (name: String)
    ensures
        name@ == unique_name(base_name@, texts(existing@)),
        !texts(existing@).contains(name@),
{
    let ghost taken = texts(existing@);
    let files: usize = existing.len();
    let mut attempt: usize = 0;
    loop
        invariant
            taken == texts(existing@),
            files == existing@.len(),
            attempt <= files,
            forall|k: nat| k < attempt ==> taken.contains(#[trigger] candidate(base_name@, k)),
        decreases files - attempt,
    {
        let name = candidate_name(base_name, attempt as u64);
        if !is_listed(existing, &name) {
            proof {
                let first = lemma_unique_name(base_name@, taken);
                lemma_first_free_unique(base_name@, taken, first, attempt as nat);
            }
            return name;
        }
        proof {
            lemma_attempts_fit(base_name@, taken, (attempt + 1) as nat);
        }
        attempt += 1;
    }
}

} // verus!
