//! Small record types: people with addresses, a library of books, user
//! accounts, and a grade book keyed by student name.

use crate::strings::eq_str;
use vstd::prelude::*;

verus! {

/// A postal address.
#[derive(Debug, PartialEq)]
pub struct Address {
    pub street: String,
    pub city: String,
    pub zip_code: String,
}

/// A person with a name, an age and an address.
#[derive(Debug, PartialEq)]
pub struct Person {
    pub name: String,
    pub age: u32,
    pub address: Address,
}

impl Person {
    pub fn new(name: String, age: u32, address: Address) -> (r: Person)
        ensures
            r.name == name,
            r.age == age,
            r.address == address,
    {
        Person { name, age, address }
    }

    /// One year older; nothing else changes.
    pub fn have_birthday(&mut self)
        requires
            old(self).age < u32::MAX,
        ensures
            final(self).age == old(self).age + 1,
            final(self).name == old(self).name,
            final(self).address == old(self).address,
    {
        self.age = self.age + 1;
    }

    /// Replaces the address; nothing else changes.
    pub fn move_to(&mut self, new_address: Address)
        ensures
            final(self).address == new_address,
            final(self).name == old(self).name,
            final(self).age == old(self).age,
    {
        self.address = new_address;
    }
}

/// One book of the library.
#[derive(Debug, PartialEq)]
pub struct Book {
    pub title: String,
    pub author: String,
    pub isbn: String,
}

/// A named collection of books.
#[derive(Debug, PartialEq)]
pub struct Library {
    pub name: String,
    pub books: Vec<Book>,
}

impl Library {
    pub fn new(name: String) -> (r: Library)
        ensures
            r.name == name,
            r.books@ == Seq::<Book>::empty(),
    {
        Library { name, books: Vec::new() }
    }

    /// Adds a book at the end of the shelf.
    pub fn add_book(&mut self, book: Book)
        ensures
            final(self).books@ == old(self).books@.push(book),
            final(self).name == old(self).name,
    {
        self.books.push(book);
    }

    /// The first book with the given title, if any.
    pub fn find_book(&self, title: &str) -> (r: Option<&Book>)
        ensures
            match r {
                Some(b) => exists|i: int|
                    {
                        &&& 0 <= i < self.books@.len()
                        &&& #[trigger] self.books@[i] == *b
                        &&& b.title@ == title@
                        &&& forall|j: int| 0 <= j < i ==> self.books@[j].title@ != title@
                    },
                None => forall|j: int|
                    0 <= j < self.books@.len() ==> #[trigger] self.books@[j].title@ != title@,
            },
    {
        let n = self.books.len();
        let mut i: usize = 0;
        while i < n
            invariant
                i <= n,
                n == self.books@.len(),
                forall|j: int| 0 <= j < i ==> #[trigger] self.books@[j].title@ != title@,
            decreases n - i,
        {
            if eq_str(self.books[i].title.as_str(), title) {
                return Some(&self.books[i]);
            }
            i = i + 1;
        }
        None
    }

    /// How many books the library holds.
    pub fn book_count(&self) -> (r: usize)
        ensures
            r == self.books@.len(),
    {
        self.books.len()
    }
}

/// A user account.
#[derive(Debug, PartialEq)]
pub struct User {
    pub active: bool,
    pub username: String,
    pub email: String,
    pub sign_in_count: u64,
}

/// A fresh, active account with one sign-in.
pub fn build_user(email: String, username: String) -> (r: User)
    ensures
        r.email == email,
        r.username == username,
        r.active == true,
        r.sign_in_count == 1,
{
    User { email, username, active: true, sign_in_count: 1 }
}

/// Grades per student. The student list and the grade rows run in
/// parallel; student names are unique.
#[derive(Debug, PartialEq)]
pub struct GradeBook {
    pub students: Vec<String>,
    pub grades: Vec<Vec<i32>>,
}

impl GradeBook {
    /// The rows line up with the students, and no name repeats.
    pub open spec fn wf(&self) -> bool {
        &&& self.students@.len() == self.grades@.len()
        &&& forall|i: int, j: int|
            0 <= i < j < self.students@.len() ==> (#[trigger] self.students@[i])@ != (
            #[trigger] self.students@[j])@
    }

    pub fn new() -> (r: GradeBook)
        ensures
            r.wf(),
            r.students@.len() == 0,
    {
        GradeBook { students: Vec::new(), grades: Vec::new() }
    }

    /// Whether a student of this name is enrolled.
    pub fn has_student(&self, name: &str) -> (r: bool)
        ensures
            r == exists|i: int|
                0 <= i < self.students@.len() && (#[trigger] self.students@[i])@ == name@,
    {
        let n = self.students.len();
        let mut i: usize = 0;
        while i < n
            invariant
                i <= n,
                n == self.students@.len(),
                forall|j: int| 0 <= j < i ==> (#[trigger] self.students@[j])@ != name@,
            decreases n - i,
        {
            if eq_str(self.students[i].as_str(), name) {
                return true;
            }
            i = i + 1;
        }
        false
    }

    /// Enrols a new student with no grades; an already known name changes
    /// nothing.
    pub fn add_student(&mut self, name: String)
        requires
            old(self).wf(),
        ensures
            final(self).wf(),
            ({
                let known = exists|i: int|
                    0 <= i < old(self).students@.len() && (#[trigger] old(
                        self,
                    ).students@[i])@ == name@;
                if known {
                    *final(self) == *old(self)
                } else {
                    &&& final(self).students@ == old(self).students@.push(name)
                    &&& final(self).grades@.len() == old(self).grades@.len() + 1
                    &&& final(self).grades@.last()@ == Seq::<i32>::empty()
                    &&& forall|j: int|
                        0 <= j < old(self).grades@.len() ==> final(self).grades@[j] == old(
                            self,
                        ).grades@[j]
                }
            }),
    {
        if !self.has_student(name.as_str()) {
            self.students.push(name);
            let empty: Vec<i32> = Vec::new();
            self.grades.push(empty);
        }
    }

    /// Records a grade for the named student; an unknown name changes
    /// nothing.
    pub fn add_grade(&mut self, student: &str, grade: i32)
        requires
            old(self).wf(),
        ensures
            final(self).wf(),
            final(self).students@ == old(self).students@,
            forall|i: int|
                0 <= i < old(self).grades@.len() && (#[trigger] old(self).students@[i])@
                    != student@ ==> final(self).grades@[i] == old(self).grades@[i],
            forall|i: int|
                0 <= i < old(self).grades@.len() && (#[trigger] old(self).students@[i])@
                    == student@ ==> final(self).grades@[i]@ == old(self).grades@[i]@.push(
                    grade,
                ),
    {
        let n = self.students.len();
        let mut i: usize = 0;
        while i < n
            invariant
                i <= n,
                n == self.students@.len(),
                self.wf(),
                *self == *old(self),
                forall|j: int| 0 <= j < i ==> (#[trigger] self.students@[j])@ != student@,
            decreases n - i,
        {
            if eq_str(self.students[i].as_str(), student) {
                let ghost gi = i as int;
                let mut row = self.grades.remove(i);
                row.push(grade);
                self.grades.insert(i, row);
                proof {
                    assert(self.grades@ =~= old(self).grades@.update(
                        gi,
                        self.grades@[gi],
                    ));
                    assert(self.grades@[gi]@ =~= old(self).grades@[gi]@.push(grade));
                }
                return ;
            }
            i = i + 1;
        }
    }
}

} // verus!
