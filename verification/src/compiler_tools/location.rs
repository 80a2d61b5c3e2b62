//! Places in a source file, and values that carry their place with them.
use vstd::prelude::*;
use vstd::string::StringExecFns;
use crate::text::{decimal, push_signed_decimal, Render};

verus! {

/// A place in a source file.
#[derive(Clone, Copy, Debug, PartialEq, Eq, Structural)]
pub struct Location {
    /// The column.
    pub col: isize,
    /// The line.
    pub line: isize,
}

/// A value together with the place it was read at.
#[derive(Debug, PartialEq)]
pub struct AtLocation<T> {
    /// Where the value was read.
    pub location: Location,
    /// The value.
    pub value: T,
}

impl Location {
    /// The sum of the column and the line.
    pub open spec fn spec_absolute(&self) -> int {
        self.col + self.line
    }

    /// The sum of the column and the line, which must fit an `isize`. It
    /// serves as a single number for the place; it is not an offset into the
    /// file.
    pub fn absolute(&self) -> (sum: isize)
        requires
            isize::MIN <= self.spec_absolute() <= isize::MAX,
        ensures
            sum == self.spec_absolute(),
    {
        self.col + self.line
    }

    /// The sum of the column and the line: `None` exactly when it does not
    /// fit an `isize`.
    pub fn checked_absolute(&self) -> (sum: Option<isize>)
        ensures
            sum is Some <==> isize::MIN <= self.spec_absolute() <= isize::MAX,
            sum matches Some(found) ==> found == self.spec_absolute(),
    {
        self.col.checked_add(self.line)
    }
}

impl Render for Location {
    /// The words `line` and `column`, each followed by its number.
    open spec fn rendered(&self) -> Seq<char> {
        "line "@ + decimal(self.line as int) + ", column "@ + decimal(self.col as int)
    }

    fn render(&self) -> (text: String) {
        let mut text = "line ".to_owned();
        push_signed_decimal(&mut text, self.line as i64);
        text.append(", column ");
        push_signed_decimal(&mut text, self.col as i64);
        text
    }
}

impl<T: Render> Render for AtLocation<T> {
    /// The value, the word `at`, and the place.
    open spec fn rendered(&self) -> Seq<char> {
        self.value.rendered() + " at "@ + self.location.rendered()
    }

    fn render(&self) -> (text: String) {
        let mut text = self.value.render();
        text.append(" at ");
        let place = self.location.render();
        text.append(place.as_str());
        text
    }
}

impl<T> std::ops::Deref for AtLocation<T> {
    type Target = T;

    /// The value, read through the wrapper.
    fn deref(&self) -> (value: &T)
        ensures
            *value == self.value,
    {
        &self.value
    }
}

} // verus!
