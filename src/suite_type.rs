//! The closed set of assignment kinds, and how an assignment name selects one.
use vstd::prelude::*;

verus! {

/// The kinds of assignment that have a test suite.
#[derive(Debug, Clone, Copy, PartialEq, Eq, Hash, Structural)]
pub enum TestSuiteType {
    CircleArea,
    Population,
    Sequence,
    ThreeNumber,
}

/// The kinds in declaration order: the order in which names are matched.
pub open spec fn all_kinds() -> Seq<TestSuiteType> {
    seq![
        TestSuiteType::CircleArea,
        TestSuiteType::Population,
        TestSuiteType::Sequence,
        TestSuiteType::ThreeNumber,
    ]
}

/// The canonical short name of each kind.
pub open spec fn kind_name(k: TestSuiteType) -> Seq<char> {
    match k {
        TestSuiteType::CircleArea => "circle_area"@,
        TestSuiteType::Population => "population"@,
        TestSuiteType::Sequence => "sequence"@,
        TestSuiteType::ThreeNumber => "three_number"@,
    }
}

/// `suffix` is a suffix of `s`.
pub open spec fn ends_with(s: Seq<char>, suffix: Seq<char>) -> bool {
    suffix.len() <= s.len() && s.subrange(s.len() - suffix.len(), s.len() as int) == suffix
}

/// The first kind, from position `from` of `all_kinds()` on, whose name ends `s`.
pub open spec fn first_match_from(s: Seq<char>, from: int) -> Option<TestSuiteType>
    decreases 4 - from,
{
    if from < 0 || from >= 4 {
        None
    } else if ends_with(s, kind_name(all_kinds()[from])) {
        Some(all_kinds()[from])
    } else {
        first_match_from(s, from + 1)
    }
}

/// The kind an assignment name selects: the first in declaration order whose
/// name is a suffix of it.
pub open spec fn resolve(s: Seq<char>) -> Option<TestSuiteType> {
    first_match_from(s, 0)
}

impl TestSuiteType {
    /// The canonical short name of this kind.
    pub fn as_str(&self) -> (r: &'static str)
        ensures
            r@ == kind_name(*self),
    {
        match self {
            TestSuiteType::CircleArea => "circle_area",
            TestSuiteType::Population => "population",
            TestSuiteType::Sequence => "sequence",
            TestSuiteType::ThreeNumber => "three_number",
        }
    }

    /// The kind at position `i` of declaration order.
    fn nth(i: usize) -> (r: TestSuiteType)
        requires
            i < 4,
        ensures
            r == all_kinds()[i as int],
    {
        if i == 0 {
            TestSuiteType::CircleArea
        } else if i == 1 {
            TestSuiteType::Population
        } else if i == 2 {
            TestSuiteType::Sequence
        } else {
            TestSuiteType::ThreeNumber
        }
    }

    /// Selects the kind of an assignment from the end of its name: the first
    /// kind in declaration order whose canonical name is a suffix of `s`.
    pub fn from_endwith(s: &str) -> (r: Option<TestSuiteType>)
        ensures
            r == resolve(s@),
            r is Some ==> ends_with(s@, kind_name(r->0)),
            r is None ==> forall|k: TestSuiteType| !ends_with(s@, #[trigger] kind_name(k)),
    {
        let mut i: usize = 0;
        while i < 4
            invariant
                i <= 4,
                first_match_from(s@, 0) == first_match_from(s@, i as int),
                forall|j: int| 0 <= j < i ==> !ends_with(s@, #[trigger] kind_name(all_kinds()[j])),
            decreases 4 - i,
        {
            let k = TestSuiteType::nth(i);
            if str_ends_with(s, k.as_str()) {
                return Some(k);
            }
            i = i + 1;
        }
        proof {
            assert forall|k: TestSuiteType| !ends_with(s@, #[trigger] kind_name(k)) by {
                match k {
                    TestSuiteType::CircleArea => assert(all_kinds()[0] == k),
                    TestSuiteType::Population => assert(all_kinds()[1] == k),
                    TestSuiteType::Sequence => assert(all_kinds()[2] == k),
                    TestSuiteType::ThreeNumber => assert(all_kinds()[3] == k),
                }
            }
        }
        None
    }
}

/// Whether `suffix` is a suffix of `s`, compared character by character.
pub fn str_ends_with(s: &str, suffix: &str) -> (r: bool)
    ensures
        r == ends_with(s@, suffix@),
{
    let n = s.unicode_len();
    let m = suffix.unicode_len();
    if m > n {
        return false;
    }
    let off = n - m;
    let mut i: usize = 0;
    while i < m
        invariant
            n == s@.len(),
            m == suffix@.len(),
            off + m == n,
            i <= m,
            forall|j: int| 0 <= j < i ==> s@[off + j] == suffix@[j],
        decreases m - i,
    {
        if s.get_char(off + i) != suffix.get_char(i) {
            assert(s@.subrange(off as int, n as int)[i as int] != suffix@[i as int]);
            return false;
        }
        i = i + 1;
    }
    assert(s@.subrange(off as int, n as int) =~= suffix@);
    true
}

} // verus!
