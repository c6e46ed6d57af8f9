//! The catalog entry for one electronic book: identity, bibliographic
//! fields, and timestamp bookkeeping.

use vstd::prelude::*;

verus! {

/// Mathematical image of a [`Book`]: every text field as a sequence of
/// characters, every timestamp as an unbounded integer.
#[verifier::ext_equal]
pub ghost struct BookView {
    pub id: Seq<char>,
    pub title: Seq<char>,
    pub author: Option<Seq<char>>,
    pub isbn_10: Option<Seq<char>>,
    pub isbn_13: Option<Seq<char>>,
    pub publisher: Option<Seq<char>>,
    pub publish_date: Option<Seq<char>>,
    pub description: Option<Seq<char>>,
    pub cover_image_path: Option<Seq<char>>,
    pub epub_file_path: Seq<char>,
    pub openlibrary_key: Option<Seq<char>>,
    pub openlibrary_work_key: Option<Seq<char>>,
    pub page_count: Option<int>,
    pub language: Option<Seq<char>>,
    pub created_at: int,
    pub updated_at: int,
}

pub open spec fn opt_str_view(o: Option<String>) -> Option<Seq<char>> {
    match o {
        Option::Some(s) => Option::Some(s@),
        Option::None => Option::None,
    }
}

pub open spec fn opt_int_view(o: Option<i32>) -> Option<int> {
    match o {
        Option::Some(n) => Option::Some(n as int),
        Option::None => Option::None,
    }
}

/// One catalog entry. `id`, `created_at` and `updated_at` are assigned by
/// this type; the descriptive fields start absent and are filled in later
/// by the caller, who is expected to advance `updated_at` afterwards.
#[derive(Debug, Clone)]
pub struct Book {
    pub id: String,
    pub title: String,
    pub author: Option<String>,
    pub isbn_10: Option<String>,
    pub isbn_13: Option<String>,
    pub publisher: Option<String>,
    pub publish_date: Option<String>,
    pub description: Option<String>,
    pub cover_image_path: Option<String>,
    pub epub_file_path: String,
    pub openlibrary_key: Option<String>,
    pub openlibrary_work_key: Option<String>,
    pub page_count: Option<i32>,
    pub language: Option<String>,
    pub created_at: i64,
    pub updated_at: i64,
}

impl View for Book {
    type V = BookView;

    open spec fn view(&self) -> BookView {
        BookView {
            id: self.id@,
            title: self.title@,
            author: opt_str_view(self.author),
            isbn_10: opt_str_view(self.isbn_10),
            isbn_13: opt_str_view(self.isbn_13),
            publisher: opt_str_view(self.publisher),
            publish_date: opt_str_view(self.publish_date),
            description: opt_str_view(self.description),
            cover_image_path: opt_str_view(self.cover_image_path),
            epub_file_path: self.epub_file_path@,
            openlibrary_key: opt_str_view(self.openlibrary_key),
            openlibrary_work_key: opt_str_view(self.openlibrary_work_key),
            page_count: opt_int_view(self.page_count),
            language: opt_str_view(self.language),
            created_at: self.created_at as int,
            updated_at: self.updated_at as int,
        }
    }
}

pub open spec fn is_lower_hex_digit(c: char) -> bool {
    (48 <= c as u32 && c as u32 <= 57) || (97 <= c as u32 && c as u32 <= 102)
}

/// The hyphenated textual form of a UUID: 36 characters, with `-` at
/// positions 8, 13, 18 and 23 and a lowercase hexadecimal digit everywhere
/// else.
pub open spec fn is_uuid_text(s: Seq<char>) -> bool {
    &&& s.len() == 36
    &&& forall|i: int|
        0 <= i < 36 ==> (if i == 8 || i == 13 || i == 18 || i == 23 {
            s[i] == '-'
        } else {
            is_lower_hex_digit(#[trigger] s[i])
        })
}

/// The id text of a version-4 UUID: the hyphenated shape, the version
/// nibble `4` at position 14, and an RFC variant digit at position 19.
pub open spec fn is_uuid_v4_text(s: Seq<char>) -> bool {
    &&& is_uuid_text(s)
    &&& s[14] == '4'
    &&& (s[19] == '8' || s[19] == '9' || s[19] == 'a' || s[19] == 'b')
}

/// A record as the constructor hands it out, and as every later mutation
/// is expected to keep it: a well-formed identifier and timestamps that
/// never run backwards past the creation instant.
pub open spec fn well_formed(v: BookView) -> bool {
    &&& is_uuid_text(v.id)
    &&& 0 <= v.created_at
    &&& v.created_at <= v.updated_at
}

/// Relies on `uuid::Uuid::new_v4` and its `Display` form: a freshly drawn
/// identifier rendered as lowercase hyphenated text, with the version
/// nibble set to `4` and the variant bits to the RFC pattern. The draw is
/// random, so nothing is claimed beyond the shape of the text; the draw
/// itself aborts only if the operating system's randomness source fails,
/// as the original would.
#[verifier::external_body]
fn fresh_uuid_text() -> (r: String)
    ensures
        is_uuid_v4_text(r@),
{
    uuid::Uuid::new_v4().to_string()
}

/// Relies on `std::time::SystemTime::now` and `duration_since`: the number
/// of whole seconds from the Unix epoch to the current clock reading, or
/// `None` when the clock reads earlier than the epoch. The reading depends
/// on the wall clock, so nothing is claimed of the value.
#[verifier::external_body]
fn clock_seconds() -> (r: Option<u64>)
{
    std::time::SystemTime::now()
        .duration_since(std::time::UNIX_EPOCH)
        .ok()
        .map(|d| d.as_secs())
}

/// The timestamp a clock reading is stored as: the whole seconds passed
/// through when the clock was readable and the value representable,
/// saturated at the largest timestamp otherwise, and zero when the clock
/// could not be read.
pub open spec fn spec_clamp_seconds(s: Option<u64>) -> int {
    match s {
        Option::Some(n) => if n <= 0x7fff_ffff_ffff_ffff {
            n as int
        } else {
            0x7fff_ffff_ffff_ffff
        },
        Option::None => 0,
    }
}

/// Turns one clock reading into the stored timestamp, exactly as
/// [`spec_clamp_seconds`] says: pass-through, saturation, or zero on a
/// failed read.
pub fn clamp_seconds(s: Option<u64>) -> (r: i64)
    ensures
        r as int == spec_clamp_seconds(s),
        r >= 0,
{
    match s {
        Option::Some(n) => {
            if n <= i64::MAX as u64 {
                n as i64
            } else {
                i64::MAX
            }
        },
        Option::None => 0,
    }
}

/// A later or equal clock reading never yields a smaller timestamp, so
/// stored timestamps inherit whatever monotonicity the clock has.
pub proof fn lemma_clamp_seconds_monotone(a: u64, b: u64)
    requires
        a <= b,
    ensures
        spec_clamp_seconds(Option::Some(a)) <= spec_clamp_seconds(Option::Some(b)),
{
}

/// The current wall-clock time in whole seconds since the Unix epoch,
/// read from the clock and stored through [`clamp_seconds`], so that it
/// never fails and never returns a negative value.
pub fn current_timestamp() -> (r: i64)
    ensures
        r >= 0,
{
    clamp_seconds(clock_seconds())
}

impl Book {
    /// Creates the one record of a new catalog entry: a fresh identifier,
    /// both timestamps set to the same clock reading, and every
    /// descriptive field explicitly absent.
    pub fn new(title: String, epub_path: String) -> (b: Book)
        ensures
            b@.title == title@,
            b@.epub_file_path == epub_path@,
            is_uuid_v4_text(b@.id),
            is_uuid_text(b@.id),
            b@.id.len() > 0,
            b@.author is None,
            b@.isbn_10 is None,
            b@.isbn_13 is None,
            b@.publisher is None,
            b@.publish_date is None,
            b@.description is None,
            b@.cover_image_path is None,
            b@.openlibrary_key is None,
            b@.openlibrary_work_key is None,
            b@.page_count is None,
            b@.language is None,
            b@.created_at == b@.updated_at,
            b@.created_at >= 0,
            well_formed(b@),
    {
        let now = current_timestamp();
        Book {
            id: fresh_uuid_text(),
            title,
            author: None,
            isbn_10: None,
            isbn_13: None,
            publisher: None,
            publish_date: None,
            description: None,
            cover_image_path: None,
            epub_file_path: epub_path,
            openlibrary_key: None,
            openlibrary_work_key: None,
            page_count: None,
            language: None,
            created_at: now,
            updated_at: now,
        }
    }

    /// Moves `updated_at` to `now` when that is ahead of it, and leaves it
    /// alone otherwise; `created_at` and every other field stay untouched.
    pub fn advance_updated_at(&mut self, now: i64)
        ensures
            final(self)@ == (BookView {
                updated_at: if now > old(self)@.updated_at {
                    now as int
                } else {
                    old(self)@.updated_at
                },
                ..old(self)@
            }),
    {
        if now > self.updated_at {
            self.updated_at = now;
        }
    }

    /// Re-reads the clock and advances `updated_at` through
    /// [`Book::advance_updated_at`]; `created_at` and every other field
    /// stay untouched, and `updated_at` never moves backwards, even when
    /// the clock does.
    pub fn update_timestamp(&mut self)
        ensures
            final(self)@.updated_at >= old(self)@.updated_at,
            final(self)@ == (BookView { updated_at: final(self)@.updated_at, ..old(self)@ }),
            well_formed(old(self)@) ==> well_formed(final(self)@),
    {
        let now = current_timestamp();
        self.advance_updated_at(now);
    }
}

} // verus!
