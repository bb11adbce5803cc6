//! Joining grading and fingerprinting: which submissions are fingerprinted,
//! and what a student who submitted nothing reads as.
use vstd::prelude::*;
use crate::collision::{CollisionGroup, collision_groups, exact_groups, colliding, sharers, lemma_sharers};
use crate::fingerprint::{fingerprint, fingerprint_of};
use crate::grader::StudentGrade;
use crate::result::{AdditionalStatus, summary_status};

verus! {

/// The fingerprint that stands for each student: that of the graded file's
/// content, or none when no file was graded or its content could not be read.
pub open spec fn submission_fps(
    grades: Seq<StudentGrade>,
    contents: Seq<Option<Vec<u8>>>,
) -> Seq<Option<u64>> {
    Seq::new(
        grades.len(),
        |i: int|
            if grades[i].submission is Some && contents[i] is Some {
                Some(fingerprint_of(contents[i]->0@))
            } else {
                None
            },
    )
}

/// Fingerprints each graded submission. `contents[i]` is the content of
/// student `i`'s graded file, or `None` when it could not be read; a student
/// with no graded file is left out whatever `contents` holds.
pub fn fingerprint_submissions(
    grades: &Vec<StudentGrade>,
    contents: &Vec<Option<Vec<u8>>>,
) -> (r: Vec<Option<u64>>)
    requires
        grades@.len() == contents@.len(),
    ensures
        r@ == submission_fps(grades@, contents@),
{
    let mut r: Vec<Option<u64>> = Vec::new();
    let mut i: usize = 0;
    while i < grades.len()
        invariant
            i <= grades@.len() == contents@.len(),
            r@ =~= submission_fps(grades@, contents@).subrange(0, i as int),
        decreases grades@.len() - i,
    {
        let fp = if grades[i].submission.is_some() {
            match &contents[i] {
                Some(c) => Some(fingerprint(c.as_slice())),
                None => None,
            }
        } else {
            None
        };
        r.push(fp);
        i = i + 1;
    }
    assert(r@ =~= submission_fps(grades@, contents@));
    r
}

/// The collision set of the graded submissions.
pub fn detect_collisions(
    grades: &Vec<StudentGrade>,
    contents: &Vec<Option<Vec<u8>>>,
) -> (r: Vec<CollisionGroup>)
    requires
        grades@.len() == contents@.len(),
    ensures
        exact_groups(submission_fps(grades@, contents@), r@),
{
    let fps = fingerprint_submissions(grades, contents);
    collision_groups(&fps)
}

/// A student with no graded file has no results, reads as `Incomplete`, is in
/// no collision group and is not flagged as colliding.
pub proof fn lemma_unsubmitted(
    grades: Seq<StudentGrade>,
    contents: Seq<Option<Vec<u8>>>,
    i: int,
)
    requires
        0 <= i < grades.len(),
        grades.len() <= usize::MAX,
        grades[i].submission is None,
        grades[i].results@.len() == 0,
    ensures
        summary_status(grades[i].results@) == AdditionalStatus::Incomplete,
        !colliding(submission_fps(grades, contents), i),
        forall|f: u64| !sharers(submission_fps(grades, contents), f).contains(i as usize),
{
    let fps = submission_fps(grades, contents);
    assert forall|f: u64| !sharers(fps, f).contains(i as usize) by {
        lemma_sharers(fps, f);
        if sharers(fps, f).contains(i as usize) {
            let k = choose|k: int| 0 <= k < sharers(fps, f).len() && sharers(fps, f)[k] == i as usize;
            assert(fps[i] == Some(f));
        }
    }
}

/// Graded files with identical content are in one collision group: two
/// students whose graded files have equal bytes are both flagged.
pub proof fn lemma_identical_submissions_collide(
    grades: Seq<StudentGrade>,
    contents: Seq<Option<Vec<u8>>>,
    i: int,
    j: int,
)
    requires
        grades.len() == contents.len(),
        grades.len() <= usize::MAX,
        0 <= i < grades.len(),
        0 <= j < grades.len(),
        i != j,
        grades[i].submission is Some,
        grades[j].submission is Some,
        contents[i] is Some,
        contents[j] is Some,
        contents[i]->0@ == contents[j]->0@,
    ensures
        colliding(submission_fps(grades, contents), i),
        colliding(submission_fps(grades, contents), j),
{
    let fps = submission_fps(grades, contents);
    assert(fps[i] == fps[j]);
    assert(fps[i] is Some);
}

} // verus!
