//! The classified parts of a request: text parts held in memory and file
//! parts in temporary files, with the lookups over them.

use crate::field::Outcome;
use crate::naming::{file_name_for, is_generated_name, sanitized_name};
use crate::text::{decimal, form_encode, form_encoded, map_of, str_eq, usize_text, utf8_text};
use std::collections::HashMap;
use tempfile::NamedTempFile;
use vstd::prelude::*;
use vstd::utf8::{decode_utf8, valid_utf8};

verus! {

/// What can go wrong with a field or with a finished file.
#[derive(Debug)]
#[verifier::reject_recursive_types(F)]
pub enum Error<F> {
    /// Reading or writing a file failed.
    Io(std::io::Error),
    /// A finished file could not be moved to its place.
    TempFilePersistError(tempfile::PersistError<F>),
    /// The field grew past the file limit `limit`; `file_name` is the file
    /// name it declared, if any.
    FileTooLarge { limit: usize, file_name: Option<String> },
}

/// The message of a field that was too large.
pub open spec fn too_large_message(limit: usize, file_name: Option<Seq<char>>) -> Seq<char> {
    let head = "File is too large (limit: "@ + decimal(limit as nat) + " bytes)"@;
    match file_name {
        Some(n) => head + ": "@ + n,
        None => head,
    }
}

/// Relies on the `Display` of `std::io::Error`: a message from the system.
#[verifier::external_body]
fn io_error_text(e: &std::io::Error) -> String {
    e.to_string()
}

/// Relies on the `Display` of `tempfile::PersistError`: a message that wraps
/// the one of the error underneath.
#[verifier::external_body]
fn persist_error_text<F>(e: &tempfile::PersistError<F>) -> String {
    e.to_string()
}

impl<F> Error<F> {
    /// A message that describes the error.
    pub fn to_string(&self) -> (r: String)
        ensures
            self matches Error::FileTooLarge { limit, file_name } ==> r@ == too_large_message(
                *limit,
                match file_name {
                    Some(n) => Some(n@),
                    None => None,
                },
            ),
    {
        match self {
            Error::Io(e) => io_error_text(e),
            Error::TempFilePersistError(e) => persist_error_text(e),
            Error::FileTooLarge { limit, file_name } => {
                let mut s = "File is too large (limit: ".to_owned();
                let digits = usize_text(*limit);
                s.append(digits.as_str());
                s.append(" bytes)");
                proof {
                    reveal_strlit("File is too large (limit: ");
                    reveal_strlit(" bytes)");
                }
                match file_name {
                    Some(n) => {
                        s.append(": ");
                        s.append(n.as_str());
                        proof {
                            reveal_strlit(": ");
                        }
                    },
                    None => {},
                }
                s
            },
        }
    }
}

/// A field's data in a temporary file, with the file name the client declared
/// for it and the name under which it is persisted.
#[derive(Debug)]
#[verifier::reject_recursive_types(F)]
pub struct File<F> {
    inner: NamedTempFile<F>,
    original_file_name: Option<String>,
    sanitized_file_name: String,
}

impl<F> File<F> {
    /// The temporary file that holds the data.
    pub closed spec fn spec_inner(&self) -> NamedTempFile<F> {
        self.inner
    }

    /// The file name declared in the request.
    pub closed spec fn spec_original_file_name(&self) -> Option<Seq<char>> {
        match self.original_file_name {
            Some(n) => Some(n@),
            None => None,
        }
    }

    /// The name under which the file is persisted.
    pub closed spec fn spec_sanitized_file_name(&self) -> Seq<char> {
        self.sanitized_file_name@
    }

    /// The temporary file that holds the data.
    pub fn into_inner(self) -> (r: NamedTempFile<F>)
        ensures
            r == self.spec_inner(),
    {
        self.inner
    }

    /// The temporary file that holds the data, borrowed.
    pub fn as_temp_file(&self) -> (r: &NamedTempFile<F>)
        ensures
            *r == self.spec_inner(),
    {
        &self.inner
    }

    /// The file name provided in the request.
    pub fn original_file_name(&self) -> (r: Option<&str>)
        ensures
            match self.spec_original_file_name() {
                Some(n) => r matches Some(s) && s@ == n,
                None => r is None,
            },
    {
        match &self.original_file_name {
            Some(n) => Some(n.as_str()),
            None => None,
        }
    }

    /// The sanitized form of the declared file name, or a generated name if
    /// none was declared.
    pub fn sanitized_file_name(&self) -> (r: &str)
        ensures
            r@ == self.spec_sanitized_file_name(),
    {
        self.sanitized_file_name.as_str()
    }
}

impl<F> AsRef<NamedTempFile<F>> for File<F> {
    fn as_ref(&self) -> &NamedTempFile<F> {
        &self.inner
    }
}

impl<F> AsMut<NamedTempFile<F>> for File<F> {
    fn as_mut(&mut self) -> &mut NamedTempFile<F> {
        &mut self.inner
    }
}

/// The view of an optional string.
pub open spec fn opt_view(s: Option<String>) -> Option<Seq<char>> {
    match s {
        Some(n) => Some(n@),
        None => None,
    }
}

/// One field, classified.
#[derive(Debug)]
#[verifier::reject_recursive_types(F)]
pub enum Part<F> {
    /// A field held in memory.
    Text(Vec<u8>),
    /// A field in a temporary file, or the error that ended it.
    File(Result<File<F>, Error<F>>),
}

/// Turns the outcome of a field's accumulation into its part. A field that
/// ended in a spill file takes `spill`, the file the caller wrote its bytes to,
/// and a name derived from the declared file name or the content type.
pub fn finalize<F>(
    outcome: Outcome,
    spill: Option<NamedTempFile<F>>,
    declared_file_name: Option<String>,
    content_type: &str,
) -> (r: Part<F>)
    requires
        outcome is File ==> spill is Some,
    ensures
        outcome matches Outcome::Text(b) ==> (r matches Part::Text(t) && t@ == b@),
        outcome matches Outcome::TooLarge(l) ==> r == Part::<F>::File(
            Err(Error::FileTooLarge { limit: l, file_name: declared_file_name }),
        ),
        outcome is File ==> (r matches Part::File(Ok(f)) && f.spec_inner() == spill->Some_0
            && f.spec_original_file_name() == opt_view(declared_file_name) && match declared_file_name {
            Some(n) => f.spec_sanitized_file_name() == sanitized_name(n@),
            None => is_generated_name(f.spec_sanitized_file_name(), content_type@),
        }),
{
    match outcome {
        Outcome::Text(b) => Part::Text(b),
        Outcome::TooLarge(l) => Part::File(Err(Error::FileTooLarge { limit: l, file_name: declared_file_name })),
        Outcome::File => {
            let inner = spill.unwrap();
            let sanitized_file_name = match &declared_file_name {
                Some(n) => file_name_for(Some(n.as_str()), content_type),
                None => file_name_for(None, content_type),
            };
            Part::File(Ok(File { inner, original_file_name: declared_file_name, sanitized_file_name }))
        },
    }
}

/// The text parts of a request: each field's name and bytes, in the order of
/// the request.
#[derive(Debug)]
pub struct TextParts(Vec<(String, Vec<u8>)>);

/// The file parts of a request: each field's name and file, or the error that
/// ended it, in the order of the request.
#[derive(Debug)]
#[verifier::reject_recursive_types(F)]
pub struct FileParts<F>(Vec<(String, Result<File<F>, Error<F>>)>);

/// The parts of a multipart/form-data request.
#[derive(Debug)]
#[verifier::reject_recursive_types(F)]
pub struct Parts<F> {
    pub texts: TextParts,
    pub files: FileParts<F>,
}

impl View for TextParts {
    type V = Seq<(Seq<char>, Seq<u8>)>;

    closed spec fn view(&self) -> Seq<(Seq<char>, Seq<u8>)> {
        self.0@.map_values(|e: (String, Vec<u8>)| (e.0@, e.1@))
    }
}

impl<F> View for FileParts<F> {
    type V = Seq<(Seq<char>, Result<File<F>, Error<F>>)>;

    closed spec fn view(&self) -> Seq<(Seq<char>, Result<File<F>, Error<F>>)> {
        self.0@.map_values(|e: (String, Result<File<F>, Error<F>>)| (e.0@, e.1))
    }
}

/// The text parts among `fields`, in order.
pub open spec fn texts_of<F>(fields: Seq<(Seq<char>, Part<F>)>) -> Seq<(Seq<char>, Seq<u8>)>
    decreases fields.len(),
{
    if fields.len() == 0 {
        Seq::empty()
    } else {
        let rest = texts_of(fields.drop_last());
        match fields.last().1 {
            Part::Text(b) => rest.push((fields.last().0, b@)),
            Part::File(_) => rest,
        }
    }
}

/// The file parts among `fields`, in order.
pub open spec fn files_of<F>(fields: Seq<(Seq<char>, Part<F>)>) -> Seq<
    (Seq<char>, Result<File<F>, Error<F>>),
>
    decreases fields.len(),
{
    if fields.len() == 0 {
        Seq::empty()
    } else {
        let rest = files_of(fields.drop_last());
        match fields.last().1 {
            Part::Text(_) => rest,
            Part::File(f) => rest.push((fields.last().0, f)),
        }
    }
}

/// The elements of `v` in the opposite order.
fn reversed<T>(v: Vec<T>) -> (r: Vec<T>)
    ensures
        r.len() == v.len(),
        forall|i: int| 0 <= i < v.len() ==> #[trigger] r@[i] == v@[v.len() - 1 - i],
{
    let ghost orig = v@;
    let mut src = v;
    let mut r: Vec<T> = Vec::new();
    while src.len() > 0
        invariant
            src.len() + r.len() == orig.len(),
            src@ == orig.take(src.len() as int),
            forall|i: int| 0 <= i < r.len() ==> #[trigger] r@[i] == orig[orig.len() - 1 - i],
        decreases src.len(),
    {
        let x = src.pop().unwrap();
        r.push(x);
        assert(src@ == orig.take(src.len() as int));
    }
    r
}

impl<F> Parts<F> {
    /// Groups the parts of all fields, given in the order of the request, into
    /// text parts and file parts, each in that order.
    pub fn from_parts(fields: Vec<(String, Part<F>)>) -> (r: Self)
        ensures
            r.texts@ == texts_of(fields@.map_values(|e: (String, Part<F>)| (e.0@, e.1))),
            r.files@ == files_of(fields@.map_values(|e: (String, Part<F>)| (e.0@, e.1))),
    {
        let ghost all = fields@.map_values(|e: (String, Part<F>)| (e.0@, e.1));
        let mut texts: Vec<(String, Vec<u8>)> = Vec::new();
        let mut files: Vec<(String, Result<File<F>, Error<F>>)> = Vec::new();
        let mut rest = reversed(fields);
        let n = rest.len();
        while rest.len() > 0
            invariant
                rest.len() <= n,
                n == all.len(),
                forall|i: int| 0 <= i < rest.len() ==> ((#[trigger] rest@[i]).0@, rest@[i].1) == all[n - 1 - i],
                TextParts(texts)@ == texts_of(all.take(n - rest.len())),
                FileParts(files)@ == files_of(all.take(n - rest.len())),
            decreases rest.len(),
        {
            let ghost k = n - rest.len();
            let (name, part) = rest.pop().unwrap();
            assert(all.take(k + 1).drop_last() == all.take(k));
            match part {
                Part::Text(b) => {
                    texts.push((name, b));
                },
                Part::File(f) => {
                    files.push((name, f));
                },
            }
            assert(TextParts(texts)@ == texts_of(all.take(k + 1)));
            assert(FileParts(files)@ == files_of(all.take(k + 1)));
        }
        assert(all.take(n as int) == all);
        Parts { texts: TextParts(texts), files: FileParts(files) }
    }
}

/// The files of `entries` named `key` that finished, in order.
pub open spec fn taken_files<F>(entries: Seq<(Seq<char>, Result<File<F>, Error<F>>)>, key: Seq<char>) -> Seq<File<F>>
    decreases entries.len(),
{
    if entries.len() == 0 {
        Seq::empty()
    } else {
        let rest = taken_files(entries.drop_last(), key);
        match entries.last().1 {
            Ok(f) => if entries.last().0 == key {
                rest.push(f)
            } else {
                rest
            },
            Err(_) => rest,
        }
    }
}

/// The entries of `entries` other than the finished files named `key`, in order.
pub open spec fn kept_entries<F>(entries: Seq<(Seq<char>, Result<File<F>, Error<F>>)>, key: Seq<char>) -> Seq<
    (Seq<char>, Result<File<F>, Error<F>>),
>
    decreases entries.len(),
{
    if entries.len() == 0 {
        Seq::empty()
    } else {
        let rest = kept_entries(entries.drop_last(), key);
        if entries.last().0 == key && entries.last().1 is Ok {
            rest
        } else {
            rest.push(entries.last())
        }
    }
}

/// The first finished file of `entries` named `key`.
pub open spec fn first_file<F>(entries: Seq<(Seq<char>, Result<File<F>, Error<F>>)>, key: Seq<char>) -> Option<File<F>>
    decreases entries.len(),
{
    if entries.len() == 0 {
        None
    } else {
        match entries[0].1 {
            Ok(f) => if entries[0].0 == key {
                Some(f)
            } else {
                first_file(entries.drop_first(), key)
            },
            Err(_) => first_file(entries.drop_first(), key),
        }
    }
}

impl<F> FileParts<F> {
    /// The entries, each field's name with its file or error.
    pub fn into_inner(self) -> (r: Vec<(String, Result<File<F>, Error<F>>)>)
        ensures
            r@.map_values(|e: (String, Result<File<F>, Error<F>>)| (e.0@, e.1)) == self@,
    {
        self.0
    }

    /// The first file named `key` that finished, if any; the entries stay.
    pub fn first(&self, key: &str) -> (r: Option<&File<F>>)
        ensures
            match first_file(self@, key@) {
                Some(f) => r matches Some(g) && *g == f,
                None => r is None,
            },
    {
        let mut i: usize = 0;
        assert(self@.subrange(0, self@.len() as int) == self@);
        while i < self.0.len()
            invariant
                i <= self.0.len(),
                first_file(self@, key@) == first_file(self@.subrange(i as int, self@.len() as int), key@),
            decreases self.0.len() - i,
        {
            let ghost tail = self@.subrange(i as int, self@.len() as int);
            assert(tail.drop_first() == self@.subrange(i + 1, self@.len() as int));
            let (k, v) = &self.0[i];
            if let Ok(f) = v {
                if str_eq(k.as_str(), key) {
                    return Some(f);
                }
            }
            i += 1;
        }
        None
    }

    /// Removes the files named `key` that finished and returns them, in order;
    /// every other entry stays, in order.
    pub fn remove(&mut self, key: &str) -> (r: Vec<File<F>>)
        ensures
            r@ == taken_files(old(self)@, key@),
            final(self)@ == kept_entries(old(self)@, key@),
    {
        self.take(key)
    }

    /// Removes the files named `key` that finished and returns them, in order;
    /// every other entry, errors named `key` included, stays, in order.
    pub fn take(&mut self, key: &str) -> (r: Vec<File<F>>)
        ensures
            r@ == taken_files(old(self)@, key@),
            final(self)@ == kept_entries(old(self)@, key@),
    {
        let ghost all = self@;
        let mut entries: Vec<(String, Result<File<F>, Error<F>>)> = Vec::new();
        std::mem::swap(&mut entries, &mut self.0);
        let mut rest = reversed(entries);
        let n = rest.len();
        let mut taken: Vec<File<F>> = Vec::new();
        let mut untaken: Vec<(String, Result<File<F>, Error<F>>)> = Vec::new();
        while rest.len() > 0
            invariant
                rest.len() <= n,
                n == all.len(),
                forall|i: int| 0 <= i < rest.len() ==> ((#[trigger] rest@[i]).0@, rest@[i].1) == all[n - 1 - i],
                taken@ == taken_files(all.take(n - rest.len()), key@),
                FileParts(untaken)@ == kept_entries(all.take(n - rest.len()), key@),
            decreases rest.len(),
        {
            let ghost k = n - rest.len();
            let (name, v) = rest.pop().unwrap();
            assert(all.take(k + 1).drop_last() == all.take(k));
            match v {
                Ok(f) => {
                    if str_eq(name.as_str(), key) {
                        taken.push(f);
                    } else {
                        untaken.push((name, Ok(f)));
                    }
                },
                Err(e) => {
                    untaken.push((name, Err(e)));
                },
            }
            assert(FileParts(untaken)@ == kept_entries(all.take(k + 1), key@));
        }
        assert(all.take(n as int) == all);
        self.0 = untaken;
        taken
    }
}

/// Taking the files of a name leaves none of them behind: a second `take`
/// with the same name returns nothing, and the entries stay as they are.
pub proof fn lemma_take_twice<F>(entries: Seq<(Seq<char>, Result<File<F>, Error<F>>)>, key: Seq<char>)
    ensures
        taken_files(kept_entries(entries, key), key) == Seq::<File<F>>::empty(),
        kept_entries(kept_entries(entries, key), key) == kept_entries(entries, key),
    decreases entries.len(),
{
    if entries.len() > 0 {
        lemma_take_twice(entries.drop_last(), key);
        let kept = kept_entries(entries, key);
        let prev = kept_entries(entries.drop_last(), key);
        if !(entries.last().0 == key && entries.last().1 is Ok) {
            assert(kept.drop_last() == prev);
        }
    }
}

/// The text parts whose bytes are valid UTF-8, each with its bytes read as
/// text, in order.
pub open spec fn decoded_pairs(texts: Seq<(Seq<char>, Seq<u8>)>) -> Seq<(Seq<char>, Seq<char>)>
    decreases texts.len(),
{
    if texts.len() == 0 {
        Seq::empty()
    } else {
        let rest = decoded_pairs(texts.drop_last());
        if valid_utf8(texts.last().1) {
            rest.push((texts.last().0, decode_utf8(texts.last().1)))
        } else {
            rest
        }
    }
}

/// One pair of a query string: the encoded name, `=`, the encoded value.
pub open spec fn query_pair(p: (Seq<char>, Seq<char>)) -> Seq<char> {
    form_encoded(p.0) + seq!['='] + form_encoded(p.1)
}

/// The `application/x-www-form-urlencoded` form of `pairs`: each pair
/// encoded, joined by `&`.
pub open spec fn query_string(pairs: Seq<(Seq<char>, Seq<char>)>) -> Seq<char>
    decreases pairs.len(),
{
    if pairs.len() == 0 {
        Seq::empty()
    } else if pairs.len() == 1 {
        query_pair(pairs[0])
    } else {
        query_string(pairs.drop_last()) + seq!['&'] + query_pair(pairs.last())
    }
}

/// The pairs of `pairs` whose name no earlier pair has, in order.
pub open spec fn first_of_each_name(pairs: Seq<(Seq<char>, Seq<char>)>) -> Seq<(Seq<char>, Seq<char>)>
    decreases pairs.len(),
{
    if pairs.len() == 0 {
        Seq::empty()
    } else {
        let rest = first_of_each_name(pairs.drop_last());
        if exists|i: int| 0 <= i < rest.len() && (#[trigger] rest[i]).0 == pairs.last().0 {
            rest
        } else {
            rest.push(pairs.last())
        }
    }
}

/// The views of pairs of strings.
pub open spec fn pairs_view(v: Seq<(&str, &str)>) -> Seq<(Seq<char>, Seq<char>)> {
    v.map_values(|p: (&str, &str)| (p.0@, p.1@))
}

/// `m` has an entry keyed by a string with the name of `p`, and with its value.
pub open spec fn has_entry(m: Map<&str, &str>, p: (Seq<char>, Seq<char>)) -> bool {
    exists|k: &str| #[trigger] m.contains_key(k) && (k@, m[k]@) == p
}

/// `m` has an entry for each of `pairs`, and no other.
pub open spec fn map_holds_pairs(m: Map<&str, &str>, pairs: Seq<(Seq<char>, Seq<char>)>) -> bool {
    &&& forall|k: &str| #[trigger] m.contains_key(k) ==> pairs.contains((k@, m[k]@))
    &&& forall|i: int| 0 <= i < pairs.len() ==> #[trigger] has_entry(m, pairs[i])
}

impl TextParts {
    /// The entries, each field's name with its bytes.
    pub fn into_inner(self) -> (r: Vec<(String, Vec<u8>)>)
        ensures
            r@.map_values(|e: (String, Vec<u8>)| (e.0@, e.1@)) == self@,
    {
        self.0
    }

    /// The names and values of the parts whose bytes are valid UTF-8, in order;
    /// the other parts are left out.
    pub fn as_pairs(&self) -> (r: Vec<(&str, &str)>)
        ensures
            pairs_view(r@) == decoded_pairs(self@),
    {
        let mut r: Vec<(&str, &str)> = Vec::new();
        let mut i: usize = 0;
        while i < self.0.len()
            invariant
                i <= self.0.len(),
                pairs_view(r@) == decoded_pairs(self@.take(i as int)),
            decreases self.0.len() - i,
        {
            assert(self@.take(i + 1).drop_last() == self@.take(i as int));
            let (k, v) = &self.0[i];
            match utf8_text(v.as_slice()) {
                Some(t) => {
                    r.push((k.as_str(), t));
                },
                None => {},
            }
            i += 1;
            assert(pairs_view(r@) == decoded_pairs(self@.take(i as int)));
        }
        assert(self@.take(i as int) == self@);
        r
    }

    /// The parts whose bytes are valid UTF-8 as an
    /// `application/x-www-form-urlencoded` query string, in order; the other
    /// parts are left out.
    pub fn to_query_string(&self) -> (r: String)
        ensures
            r@ == query_string(decoded_pairs(self@)),
    {
        let pairs = self.as_pairs();
        let mut qs = String::new();
        let mut i: usize = 0;
        while i < pairs.len()
            invariant
                i <= pairs.len(),
                qs@ == query_string(pairs_view(pairs@).take(i as int)),
            decreases pairs.len() - i,
        {
            let ghost prefix = pairs_view(pairs@).take(i + 1);
            assert(prefix.drop_last() == pairs_view(pairs@).take(i as int));
            if i > 0 {
                qs.append("&");
            }
            let (k, v) = pairs[i];
            let name = form_encode(k);
            let value = form_encode(v);
            qs.append(name.as_str());
            qs.append("=");
            qs.append(value.as_str());
            i += 1;
            proof {
                reveal_strlit("&");
                reveal_strlit("=");
            }
            assert(qs@ =~= query_string(prefix));
        }
        assert(pairs_view(pairs@).take(i as int) == pairs_view(pairs@));
        qs
    }

    /// The names and values of the parts whose bytes are valid UTF-8; where
    /// several parts share a name, the first of them is kept.
    pub fn as_hash_map(&self) -> (r: HashMap<&str, &str>)
        ensures
            map_holds_pairs(r@, first_of_each_name(decoded_pairs(self@))),
    {
        let pairs = self.as_pairs();
        let ghost fw = first_of_each_name(decoded_pairs(self@));
        let mut kept: Vec<(&str, &str)> = Vec::new();
        let mut i: usize = 0;
        while i < pairs.len()
            invariant
                i <= pairs.len(),
                pairs_view(kept@) == first_of_each_name(pairs_view(pairs@).take(i as int)),
                forall|a: int, b: int|
                    0 <= a < b < kept.len() ==> (#[trigger] kept@[a]).0@ != (#[trigger] kept@[b]).0@,
            decreases pairs.len() - i,
        {
            let ghost prefix = pairs_view(pairs@).take(i + 1);
            assert(prefix.drop_last() == pairs_view(pairs@).take(i as int));
            let (k, v) = pairs[i];
            let mut j: usize = 0;
            let mut seen = false;
            while j < kept.len()
                invariant
                    j <= kept.len(),
                    seen <==> exists|a: int| 0 <= a < j && (#[trigger] kept@[a]).0@ == k@,
                decreases kept.len() - j,
            {
                if str_eq(kept[j].0, k) {
                    seen = true;
                }
                j += 1;
            }
            let ghost kv = pairs_view(kept@);
            assert(seen <==> exists|a: int| 0 <= a < kv.len() && (#[trigger] kv[a]).0 == k@) by {
                if seen {
                    let a = choose|a: int| 0 <= a < j && (#[trigger] kept@[a]).0@ == k@;
                    assert(kv[a].0 == k@);
                }
                if exists|a: int| 0 <= a < kv.len() && (#[trigger] kv[a]).0 == k@ {
                    let a = choose|a: int| 0 <= a < kv.len() && (#[trigger] kv[a]).0 == k@;
                    assert(kept@[a].0@ == k@);
                }
            }
            if !seen {
                kept.push((k, v));
            }
            i += 1;
            assert(pairs_view(kept@) =~= first_of_each_name(prefix));
        }
        assert(pairs_view(pairs@).take(i as int) == pairs_view(pairs@));
        let ghost kv = kept@;
        let r = map_of(kept);
        assert forall|k: &str| #[trigger] r@.contains_key(k) implies fw.contains((k@, r@[k]@)) by {
            let a = choose|a: int| 0 <= a < kv.len() && (#[trigger] kv[a]).0 == k;
            assert(pairs_view(kv)[a] == (k@, r@[k]@));
        }
        assert forall|a: int| 0 <= a < fw.len() implies #[trigger] has_entry(r@, fw[a]) by {
            assert(fw == pairs_view(kv));
            assert(pairs_view(kv)[a] == (kv[a].0@, kv[a].1@));
            assert(r@.contains_key(kv[a].0));
        }
        r
    }
}

} // verus!
