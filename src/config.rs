//! Configuration of how fields are classified and bounded.

use std::path::PathBuf;
use vstd::prelude::*;

verus! {

/// How fields are classified and how large they may grow.
///
/// Every setting is optional: with none, no field is limited, no name forces a
/// classification, and spill files go to the platform's temporary directory.
#[derive(Debug, Clone)]
pub struct PartsConfig {
    text_limit: Option<usize>,
    file_limit: Option<usize>,
    file_fields: Option<Vec<String>>,
    text_fields: Option<Vec<String>>,
    temp_dir: Option<PathBuf>,
}

/// The settings of a `PartsConfig`; a list of names that was never set is empty.
pub ghost struct ConfigView {
    pub text_limit: Option<usize>,
    pub file_limit: Option<usize>,
    pub file_fields: Seq<Seq<char>>,
    pub text_fields: Seq<Seq<char>>,
    pub temp_dir: Option<PathBuf>,
}

impl ConfigView {
    /// The configuration with nothing set.
    pub open spec fn empty() -> ConfigView {
        ConfigView {
            text_limit: None,
            file_limit: None,
            file_fields: Seq::empty(),
            text_fields: Seq::empty(),
            temp_dir: None,
        }
    }

    /// The field is listed among those always treated as files.
    pub open spec fn marks_file(self, name: Seq<char>) -> bool {
        self.file_fields.contains(name)
    }

    /// The field is listed among those treated as text at classification.
    pub open spec fn marks_text(self, name: Seq<char>) -> bool {
        self.text_fields.contains(name)
    }
}

/// The views of the names in an optional list.
pub open spec fn names_view(fields: Option<Vec<String>>) -> Seq<Seq<char>> {
    match fields {
        Some(v) => v@.map_values(|s: String| s@),
        None => Seq::empty(),
    }
}

impl View for PartsConfig {
    type V = ConfigView;

    closed spec fn view(&self) -> ConfigView {
        ConfigView {
            text_limit: self.text_limit,
            file_limit: self.file_limit,
            file_fields: names_view(self.file_fields),
            text_fields: names_view(self.text_fields),
            temp_dir: self.temp_dir,
        }
    }
}

/// Whether `name` is one of `names`.
fn names_contain(names: &Option<Vec<String>>, name: &str) -> (r: bool)
    ensures
        r == names_view(*names).contains(name@),
{
    match names {
        None => false,
        Some(v) => {
            let mut i: usize = 0;
            while i < v.len()
                invariant
                    i <= v.len(),
                    names_view(*names) == v@.map_values(|s: String| s@),
                    forall|j: int| 0 <= j < i ==> v@[j]@ != name@,
                decreases v.len() - i,
            {
                if crate::text::str_eq(v[i].as_str(), name) {
                    assert(names_view(*names)[i as int] == v@[i as int]@);
                    return true;
                }
                i += 1;
            }
            assert(!names_view(*names).contains(name@)) by {
                if names_view(*names).contains(name@) {
                    let j = choose|j: int|
                        0 <= j < names_view(*names).len() && names_view(*names)[j] == name@;
                    assert(v@[j]@ == name@);
                }
            }
            false
        },
    }
}

impl PartsConfig {
    /// Text fields whose data grows beyond this many bytes are spilled to a file.
    pub fn with_text_limit(self, text_limit: usize) -> (r: Self)
        ensures
            r@ == (ConfigView { text_limit: Some(text_limit), ..self@ }),
    {
        let mut s = self;
        s.text_limit = Some(text_limit);
        s
    }

    /// File fields whose data grows beyond this many bytes are reported as too large.
    pub fn with_file_limit(self, file_limit: usize) -> (r: Self)
        ensures
            r@ == (ConfigView { file_limit: Some(file_limit), ..self@ }),
    {
        let mut s = self;
        s.file_limit = Some(file_limit);
        s
    }

    /// Field names that are always treated as files.
    pub fn with_file_fields(self, file_fields: Vec<String>) -> (r: Self)
        ensures
            r@ == (ConfigView { file_fields: file_fields@.map_values(|s: String| s@), ..self@ }),
    {
        let mut s = self;
        s.file_fields = Some(file_fields);
        s
    }

    /// Field names that are treated as text when a field is classified.
    pub fn with_text_fields(self, text_fields: Vec<String>) -> (r: Self)
        ensures
            r@ == (ConfigView { text_fields: text_fields@.map_values(|s: String| s@), ..self@ }),
    {
        let mut s = self;
        s.text_fields = Some(text_fields);
        s
    }

    /// The directory in which spill files are created, in place of the
    /// platform's temporary directory.
    pub fn with_temp_dir<I: Into<PathBuf>>(self, temp_dir: I) -> (r: Self)
        ensures
            r@.text_limit == self@.text_limit,
            r@.file_limit == self@.file_limit,
            r@.file_fields == self@.file_fields,
            r@.text_fields == self@.text_fields,
            exists|p: PathBuf|
                r@.temp_dir == Some(p) && call_ensures(<I as Into<PathBuf>>::into, (temp_dir,), p),
    {
        let mut s = self;
        s.temp_dir = Some(temp_dir.into());
        s
    }

    /// The limit past which a text field is spilled to a file.
    pub fn text_limit(&self) -> (r: Option<usize>)
        ensures
            r == self@.text_limit,
    {
        self.text_limit
    }

    /// The limit past which a file field is too large.
    pub fn file_limit(&self) -> (r: Option<usize>)
        ensures
            r == self@.file_limit,
    {
        self.file_limit
    }

    /// The directory for spill files, if one was set.
    pub fn temp_dir(&self) -> (r: Option<&PathBuf>)
        ensures
            r == match self@.temp_dir {
                Some(p) => Some(&p),
                None => None::<&PathBuf>,
            },
    {
        match &self.temp_dir {
            Some(p) => Some(p),
            None => None,
        }
    }

    /// Whether `name` is listed among the fields always treated as files.
    pub fn is_file_field(&self, name: &str) -> (r: bool)
        ensures
            r == self@.marks_file(name@),
    {
        names_contain(&self.file_fields, name)
    }

    /// Whether `name` is listed among the fields treated as text.
    pub fn is_text_field(&self, name: &str) -> (r: bool)
        ensures
            r == self@.marks_text(name@),
    {
        names_contain(&self.text_fields, name)
    }
}

impl Default for PartsConfig {
    fn default() -> (r: Self)
        ensures
            r@ == ConfigView::empty(),
    {
        PartsConfig {
            text_limit: None,
            file_limit: None,
            file_fields: None,
            text_fields: None,
            temp_dir: None,
        }
    }
}

} // verus!
