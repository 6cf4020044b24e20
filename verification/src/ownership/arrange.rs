//! The order in which the findings of a body are reported.

use vstd::prelude::*;

use crate::diagnostics::Diagnostic;
use crate::syntax::{File, PathPlace};

verus! {

/// The position of a file among all files, in the order of their names.
#[verifier::allow_in_spec]
pub fn file_rank(file: File) -> (r: (u8, u32))
    returns
        match file {
            File::Module(module) => (
                match module.place {
                    PathPlace::BeforeBinding => 0u8,
                    PathPlace::BeforeBody => 2u8,
                    PathPlace::BeforeCompiler => 4u8,
                    PathPlace::BeforeGenerator => 6u8,
                    PathPlace::BehindGenerator => 8u8,
                },
                module.number,
            ),
            File::Binding => (1u8, 0u32),
            File::Body => (3u8, 0u32),
            File::Compiler => (5u8, 0u32),
            File::Generator => (7u8, 0u32),
        },
{
    match file {
        File::Module(module) => match module.place {
            PathPlace::BeforeBinding => (0, module.number),
            PathPlace::BeforeBody => (2, module.number),
            PathPlace::BeforeCompiler => (4, module.number),
            PathPlace::BeforeGenerator => (6, module.number),
            PathPlace::BehindGenerator => (8, module.number),
        },
        File::Binding => (1, 0),
        File::Body => (3, 0),
        File::Compiler => (5, 0),
        File::Generator => (7, 0),
    }
}

/// Whether a diagnostic is reported before another: by its file, then by its place in the file,
/// then by its condition and message.
#[verifier::allow_in_spec]
pub fn is_before(left: &Diagnostic, right: &Diagnostic) -> (r: bool)
    returns
        ({
            let left_file = file_rank(left.primary.file);
            let right_file = file_rank(right.primary.file);
            left_file.0 < right_file.0 || left_file.0 == right_file.0 && (left_file.1
                < right_file.1 || left_file.1 == right_file.1 && (left.primary.byte_start
                < right.primary.byte_start || left.primary.byte_start == right.primary.byte_start
                && left.finding.rank() < right.finding.rank()))
        }),
{
    let left_file = file_rank(left.primary.file);
    let right_file = file_rank(right.primary.file);
    left_file.0 < right_file.0 || left_file.0 == right_file.0 && (left_file.1 < right_file.1
        || left_file.1 == right_file.1 && (left.primary.byte_start < right.primary.byte_start
        || left.primary.byte_start == right.primary.byte_start && left.finding.rank()
        < right.finding.rank()))
}

/// The first position from `from` on whose diagnostic is reported after the given one.
pub open spec fn place_of(sorted: Seq<Diagnostic>, diagnostic: Diagnostic, from: nat) -> nat
    decreases sorted.len() - from,
{
    if from >= sorted.len() || is_before(&diagnostic, &sorted[from as int]) {
        from
    } else {
        place_of(sorted, diagnostic, from + 1)
    }
}

/// The first `count` diagnostics in order; those that are reported at the same position stay in
/// the order they came in.
pub open spec fn sorted_first(diagnostics: Seq<Diagnostic>, count: nat) -> Seq<Diagnostic>
    decreases count,
{
    if count == 0 || count > diagnostics.len() {
        Seq::empty()
    } else {
        let before = sorted_first(diagnostics, (count - 1) as nat);
        let diagnostic = diagnostics[count - 1];
        before.insert(place_of(before, diagnostic, 0) as int, diagnostic)
    }
}

/// Whether two diagnostics say the same of the same place.
#[verifier::allow_in_spec]
pub fn says_the_same(left: &Diagnostic, right: &Diagnostic) -> (r: bool)
    returns
        left.finding == right.finding && left.primary == right.primary,
{
    left.finding == right.finding && left.primary == right.primary
}

/// The first `count` diagnostics, each unless it says the same as the one kept before it.
pub open spec fn distinct_first(diagnostics: Seq<Diagnostic>, count: nat) -> Seq<Diagnostic>
    decreases count,
{
    if count == 0 || count > diagnostics.len() {
        Seq::empty()
    } else {
        let before = distinct_first(diagnostics, (count - 1) as nat);
        let diagnostic = diagnostics[count - 1];
        if before.len() > 0 && says_the_same(&diagnostic, &before.last()) {
            before
        } else {
            before.push(diagnostic)
        }
    }
}

/// The diagnostics in order, without repetitions.
pub open spec fn arranged(diagnostics: Seq<Diagnostic>) -> Seq<Diagnostic> {
    let sorted = sorted_first(diagnostics, diagnostics.len());
    distinct_first(sorted, sorted.len())
}

proof fn lemma_place_of(sorted: Seq<Diagnostic>, diagnostic: Diagnostic, from: nat)
    requires
        from <= sorted.len(),
    ensures
        from <= place_of(sorted, diagnostic, from) <= sorted.len(),
        forall|index: int|
            from <= index < place_of(sorted, diagnostic, from) ==> !is_before(
                &diagnostic,
                &#[trigger] sorted[index],
            ),
        place_of(sorted, diagnostic, from) < sorted.len() ==> is_before(
            &diagnostic,
            &sorted[place_of(sorted, diagnostic, from) as int],
        ),
    decreases sorted.len() - from,
{
    if from < sorted.len() && !is_before(&diagnostic, &sorted[from as int]) {
        lemma_place_of(sorted, diagnostic, from + 1);
    }
}

/// Puts diagnostics in order and drops repetitions.
pub fn arrange(diagnostics: Vec<Diagnostic>) -> (r: Vec<Diagnostic>)
    ensures
        r@ == arranged(diagnostics@),
{
    let ghost all = diagnostics@;
    let mut sorted: Vec<Diagnostic> = Vec::new();
    let mut index: usize = 0;
    while index < diagnostics.len()
        invariant
            index <= diagnostics.len(),
            diagnostics@ == all,
            sorted@ == sorted_first(all, index as nat),
        decreases diagnostics.len() - index,
    {
        let diagnostic = dup_diagnostic(&diagnostics[index]);
        let mut place: usize = 0;
        while place < sorted.len() && !is_before(&diagnostic, &sorted[place])
            invariant
                place <= sorted.len(),
                place_of(sorted@, diagnostic, 0) == place_of(sorted@, diagnostic, place as nat),
            decreases sorted.len() - place,
        {
            place = place + 1;
        }
        proof {
            lemma_place_of(sorted@, diagnostic, 0);
        }
        sorted.insert(place, diagnostic);
        index = index + 1;
    }
    let mut result: Vec<Diagnostic> = Vec::new();
    index = 0;
    while index < sorted.len()
        invariant
            index <= sorted.len(),
            result@ == distinct_first(sorted@, index as nat),
        decreases sorted.len() - index,
    {
        let repeated = result.len() > 0 && says_the_same(
            &sorted[index],
            &result[result.len() - 1],
        );
        if !repeated {
            result.push(dup_diagnostic(&sorted[index]));
        }
        index = index + 1;
    }
    result
}

/// A copy of a diagnostic.
#[verifier::allow_in_spec]
pub fn dup_diagnostic(diagnostic: &Diagnostic) -> (r: Diagnostic)
    returns
        *diagnostic,
{
    Diagnostic {
        finding: diagnostic.finding,
        primary: diagnostic.primary,
        secondary: diagnostic.secondary,
        notes: crate::list::dup_plain(&diagnostic.notes),
    }
}

/// Whether no diagnostic is reported before one that stands in front of it.
pub open spec fn in_order(diagnostics: Seq<Diagnostic>) -> bool {
    forall|left: int, right: int|
        0 <= left < right < diagnostics.len() ==> !is_before(
            &#[trigger] diagnostics[right],
            &#[trigger] diagnostics[left],
        )
}

proof fn lemma_sorted_first_in_order(diagnostics: Seq<Diagnostic>, count: nat)
    requires
        count <= diagnostics.len(),
    ensures
        in_order(sorted_first(diagnostics, count)),
        forall|diagnostic: Diagnostic| #[trigger]
            sorted_first(diagnostics, count).contains(diagnostic) <==> diagnostics.take(
                count as int,
            ).contains(diagnostic),
    decreases count,
{
    if count > 0 {
        let before = sorted_first(diagnostics, (count - 1) as nat);
        let added = diagnostics[count - 1];
        let after = sorted_first(diagnostics, count);
        lemma_sorted_first_in_order(diagnostics, (count - 1) as nat);
        lemma_place_of(before, added, 0);
        let place = place_of(before, added, 0) as int;
        assert forall|left: int, right: int| 0 <= left < right < after.len() implies !is_before(
            &#[trigger] after[right],
            &#[trigger] after[left],
        ) by {
            let l = if left < place {
                left
            } else {
                left - 1
            };
            let r = if right < place {
                right
            } else {
                right - 1
            };
            if left == place {
                assert(is_before(&added, &before[place]));
                if r > place {
                    assert(!is_before(&before[r], &before[place]));
                }
                assert(after[right] == before[r]);
            } else if right == place {
                assert(after[left] == before[l]);
                assert(!is_before(&added, &before[l]));
            } else {
                assert(after[left] == before[l]);
                assert(after[right] == before[r]);
            }
        }
        assert(diagnostics.take(count as int) =~= diagnostics.take(count - 1).push(added));
        assert forall|diagnostic: Diagnostic| #[trigger]
            after.contains(diagnostic) <==> diagnostics.take(count as int).contains(diagnostic) by {
            let shorter = diagnostics.take(count - 1);
            let longer = diagnostics.take(count as int);
            if after.contains(diagnostic) {
                let index = choose|index: int|
                    0 <= index < after.len() && after[index] == diagnostic;
                if index < place {
                    assert(before[index] == diagnostic);
                    assert(before.contains(diagnostic));
                } else if index > place {
                    assert(before[index - 1] == diagnostic);
                    assert(before.contains(diagnostic));
                } else {
                    assert(longer[count - 1] == diagnostic);
                }
                if before.contains(diagnostic) {
                    let other = choose|other: int|
                        0 <= other < shorter.len() && shorter[other] == diagnostic;
                    assert(longer[other] == diagnostic);
                }
            }
            if longer.contains(diagnostic) {
                let index = choose|index: int|
                    0 <= index < longer.len() && longer[index] == diagnostic;
                if index < count - 1 {
                    assert(shorter[index] == diagnostic);
                    assert(before.contains(diagnostic));
                    let other = choose|other: int|
                        0 <= other < before.len() && before[other] == diagnostic;
                    if other < place {
                        assert(after[other] == diagnostic);
                    } else {
                        assert(after[other + 1] == diagnostic);
                    }
                } else {
                    assert(after[place] == diagnostic);
                }
            }
        }
    } else {
        assert(diagnostics.take(0) =~= Seq::empty());
    }
}

/// Whether one of the diagnostics says the same of the same place as the given one.
pub open spec fn is_said_in(diagnostic: Diagnostic, diagnostics: Seq<Diagnostic>) -> bool {
    exists|index: int|
        0 <= index < diagnostics.len() && says_the_same(
            &diagnostic,
            &#[trigger] diagnostics[index],
        )
}

/// Whether no two neighbours say the same of the same place.
pub open spec fn no_neighbours_repeat(diagnostics: Seq<Diagnostic>) -> bool {
    forall|left: int, right: int|
        0 <= left && right == left + 1 && right < diagnostics.len() ==> !says_the_same(
            &#[trigger] diagnostics[right],
            &#[trigger] diagnostics[left],
        )
}

proof fn lemma_distinct_first(diagnostics: Seq<Diagnostic>, count: nat)
    requires
        count <= diagnostics.len(),
        in_order(diagnostics),
    ensures
        in_order(distinct_first(diagnostics, count)),
        forall|index: int|
            0 <= index < distinct_first(diagnostics, count).len() ==> diagnostics.take(
                count as int,
            ).contains(#[trigger] distinct_first(diagnostics, count)[index]),
        forall|index: int|
            0 <= index < count ==> is_said_in(
                #[trigger] diagnostics[index],
                distinct_first(diagnostics, count),
            ),
        no_neighbours_repeat(distinct_first(diagnostics, count)),
    decreases count,
{
    if count > 0 {
        lemma_distinct_first(diagnostics, (count - 1) as nat);
        let before = distinct_first(diagnostics, (count - 1) as nat);
        let after = distinct_first(diagnostics, count);
        let shorter = diagnostics.take(count - 1);
        let longer = diagnostics.take(count as int);
        let added = diagnostics[count - 1];
        assert forall|index: int| 0 <= index < after.len() implies longer.contains(
            #[trigger] after[index],
        ) by {
            if index < before.len() {
                assert(shorter.contains(before[index]));
                let other = choose|other: int|
                    0 <= other < shorter.len() && shorter[other] == before[index];
                assert(longer[other] == before[index]);
            } else {
                assert(longer[count - 1] == added);
            }
        }
        assert(in_order(after)) by {
            assert forall|left: int, right: int| 0 <= left < right < after.len() implies !is_before(
                &#[trigger] after[right],
                &#[trigger] after[left],
            ) by {
                if right == before.len() {
                    assert(shorter.contains(before[left]));
                    let other = choose|other: int|
                        0 <= other < shorter.len() && shorter[other] == before[left];
                    assert(diagnostics[other] == before[left]);
                    assert(!is_before(&diagnostics[count - 1], &diagnostics[other]));
                }
            }
        }
        assert forall|index: int| 0 <= index < count implies is_said_in(
            #[trigger] diagnostics[index],
            after,
        ) by {
            if index < count - 1 {
                assert(is_said_in(diagnostics[index], before));
                let other = choose|other: int|
                    0 <= other < before.len() && says_the_same(
                        &diagnostics[index],
                        &#[trigger] before[other],
                    );
                assert(after[other] == before[other]);
            } else {
                if before.len() > 0 && says_the_same(&added, &before.last()) {
                    assert(after[before.len() - 1] == before.last());
                } else {
                    assert(after[before.len() as int] == added);
                }
            }
        }
    }
}

/// Arranging reports everything that was found and nothing else, in order, and no two neighbours
/// say the same.
pub proof fn arranged_is_in_order(diagnostics: Seq<Diagnostic>)
    ensures
        in_order(arranged(diagnostics)),
        forall|index: int|
            0 <= index < arranged(diagnostics).len() ==> diagnostics.contains(
                #[trigger] arranged(diagnostics)[index],
            ),
        forall|index: int|
            0 <= index < diagnostics.len() ==> is_said_in(
                #[trigger] diagnostics[index],
                arranged(diagnostics),
            ),
        no_neighbours_repeat(arranged(diagnostics)),
{
    let sorted = sorted_first(diagnostics, diagnostics.len());
    lemma_sorted_first_in_order(diagnostics, diagnostics.len());
    lemma_distinct_first(sorted, sorted.len());
    assert(diagnostics.take(diagnostics.len() as int) =~= diagnostics);
    assert(sorted.take(sorted.len() as int) =~= sorted);
    let result = arranged(diagnostics);
    assert forall|index: int| 0 <= index < result.len() implies diagnostics.contains(
        #[trigger] result[index],
    ) by {
        assert(sorted.contains(result[index]));
    }
    assert forall|index: int| 0 <= index < diagnostics.len() implies is_said_in(
        #[trigger] diagnostics[index],
        result,
    ) by {
        assert(diagnostics.contains(diagnostics[index]));
        assert(sorted.contains(diagnostics[index]));
        let place = choose|place: int|
            0 <= place < sorted.len() && sorted[place] == diagnostics[index];
        assert(is_said_in(sorted[place], result));
    }
}

} // verus!
