//! How the kinds of entries are drawn.

use vstd::prelude::*;

verus! {

/// How one kind of entry is drawn: the colour pair, whether in bold and
/// underlined, and the text that stands before the name with the columns
/// it takes.
#[derive(Debug, PartialEq, Eq)]
pub struct JoshutoColorTheme {
    pub colorpair: i16,
    pub bold: bool,
    pub underline: bool,
    pub prefix: Option<String>,
    pub prefixsize: Option<usize>,
}

/// How each kind of entry is drawn, and how files are drawn by their
/// extension.
#[derive(Debug, PartialEq, Eq)]
pub struct JoshutoTheme {
    pub regular: JoshutoColorTheme,
    pub directory: JoshutoColorTheme,
    pub selection: JoshutoColorTheme,
    pub executable: JoshutoColorTheme,
    pub link: JoshutoColorTheme,
    pub socket: JoshutoColorTheme,
    pub ext: Vec<(String, JoshutoColorTheme)>,
}

/// Whether `i` is the first place of the extension `extension` in `ext`.
pub open spec fn spec_ext_at(ext: Seq<(String, JoshutoColorTheme)>, extension: Seq<char>, i: int) -> bool {
    &&& 0 <= i < ext.len()
    &&& ext[i].0@ == extension
    &&& forall|j: int| 0 <= j < i ==> ext[j].0@ != extension
}

/// Whether `ext` has something for the extension `extension`.
pub open spec fn spec_has_ext(ext: Seq<(String, JoshutoColorTheme)>, extension: Seq<char>) -> bool {
    exists|i: int| 0 <= i < ext.len() && ext[i].0@ == extension
}

impl JoshutoTheme {
    /// What the theme has for the extension `extension`: the first of its
    /// entries for it.
    pub fn ext_theme(&self, extension: &String) -> (r: Option<&JoshutoColorTheme>)
        ensures
            r is Some == spec_has_ext(self.ext@, extension@),
            r matches Some(found) ==> exists|i: int|
                spec_ext_at(self.ext@, extension@, i) && *found == self.ext@[i].1,
    {
        let n = self.ext.len();
        let mut i: usize = 0;
        while i < n
            invariant
                i <= n,
                n == self.ext.len(),
                forall|j: int| 0 <= j < i ==> self.ext@[j].0@ != extension@,
            decreases n - i,
        {
            if self.ext[i].0 == *extension {
                assert(spec_ext_at(self.ext@, extension@, i as int));
                return Some(&self.ext[i].1);
            }
            i = i + 1;
        }
        None
    }
}

} // verus!
