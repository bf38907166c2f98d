//! The four grades of a judgement.
use vstd::prelude::*;

verus! {

/// One of the four judgement grades, in the order in which a judge counts them.
#[derive(Clone, Copy, Debug, PartialEq, Eq, Structural)]
pub enum Grade {
    Perfect,
    Good,
    Bad,
    Miss,
}

/// The grade at a place in the judge's counts; every place after the third is a miss.
pub open spec fn grade_at(i: int) -> Grade {
    if i == 0 {
        Grade::Perfect
    } else if i == 1 {
        Grade::Good
    } else if i == 2 {
        Grade::Bad
    } else {
        Grade::Miss
    }
}

impl Grade {
    /// The place of the grade in the judge's counts.
    pub open spec fn place(self) -> int {
        match self {
            Grade::Perfect => 0,
            Grade::Good => 1,
            Grade::Bad => 2,
            Grade::Miss => 3,
        }
    }

    /// The name of the grade.
    pub open spec fn name(self) -> Seq<char> {
        match self {
            Grade::Perfect => "Perfect"@,
            Grade::Good => "Good"@,
            Grade::Bad => "Bad"@,
            Grade::Miss => "Miss"@,
        }
    }

    /// The grade at a place in the judge's counts.
    pub fn from_index(i: usize) -> (r: Grade)
        ensures
            r == grade_at(i as int),
    {
        match i {
            0 => Grade::Perfect,
            1 => Grade::Good,
            2 => Grade::Bad,
            _ => Grade::Miss,
        }
    }

    /// The place of the grade in the judge's counts.
    pub fn index(self) -> (r: usize)
        ensures
            r == self.place(),
            r < 4,
    {
        match self {
            Grade::Perfect => 0,
            Grade::Good => 1,
            Grade::Bad => 2,
            Grade::Miss => 3,
        }
    }

    /// The name of the grade, as a trigger is labelled with it.
    pub fn label(self) -> (r: &'static str)
        ensures
            r@ == self.name(),
    {
        match self {
            Grade::Perfect => "Perfect",
            Grade::Good => "Good",
            Grade::Bad => "Bad",
            Grade::Miss => "Miss",
        }
    }
}

/// A grade is the one at its own place, and a place below four is that of the grade at it.
pub proof fn place_and_grade_agree(grade: Grade, i: int)
    ensures
        0 <= grade.place() < 4,
        grade_at(grade.place()) == grade,
        0 <= i < 4 ==> grade_at(i).place() == i,
{
}

} // verus!
