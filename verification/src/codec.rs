//! The interchange form of a [`Book`]: one object with every field under
//! its stable name, rendered canonically, together with the strict reader
//! and the proof that reading undoes writing.

use vstd::prelude::*;

use crate::book::Book;
use crate::book::BookView;
use crate::book::opt_int_view;
use crate::book::opt_str_view;
use crate::json::chars_to_string;
use crate::json::expect;
use crate::json::expect_lit;
use crate::json::field_int;
use crate::json::field_int_exec;
use crate::json::field_opt_int;
use crate::json::field_opt_int_exec;
use crate::json::field_opt_str;
use crate::json::field_opt_str_exec;
use crate::json::field_str;
use crate::json::field_str_exec;
use crate::json::int_text;
use crate::json::is_digit;
use crate::json::lemma_expect_prefix;
use crate::json::lemma_field_int;
use crate::json::lemma_field_opt_int;
use crate::json::lemma_field_opt_str;
use crate::json::lemma_field_str;
use crate::json::opt_i64_view;
use crate::json::opt_int_text;
use crate::json::opt_str_text;
use crate::json::push_i64_text;
use crate::json::push_opt_i32;
use crate::json::push_opt_quoted;
use crate::json::push_quoted;
use crate::json::push_str_chars;
use crate::json::quoted;
use crate::json::str_to_chars;

verus! {

// The rendered record, written as the suffix that starts at each field so
// that every parsing step sees its input as `key + (value + rest)`.

#[verifier::opaque]
pub open spec fn enc_from_updated(v: BookView) -> Seq<char> {
    (",\"updated_at\":")@ + (int_text(v.updated_at) + ("}")@)
}

#[verifier::opaque]
pub open spec fn enc_from_created(v: BookView) -> Seq<char> {
    (",\"created_at\":")@ + (int_text(v.created_at) + enc_from_updated(v))
}

#[verifier::opaque]
pub open spec fn enc_from_language(v: BookView) -> Seq<char> {
    (",\"language\":")@ + (opt_str_text(v.language) + enc_from_created(v))
}

#[verifier::opaque]
pub open spec fn enc_from_page_count(v: BookView) -> Seq<char> {
    (",\"page_count\":")@ + (opt_int_text(v.page_count) + enc_from_language(v))
}

#[verifier::opaque]
pub open spec fn enc_from_openlibrary_work_key(v: BookView) -> Seq<char> {
    (",\"openlibrary_work_key\":")@ + (opt_str_text(v.openlibrary_work_key) + enc_from_page_count(
        v,
    ))
}

#[verifier::opaque]
pub open spec fn enc_from_openlibrary_key(v: BookView) -> Seq<char> {
    (",\"openlibrary_key\":")@ + (opt_str_text(v.openlibrary_key)
        + enc_from_openlibrary_work_key(v))
}

#[verifier::opaque]
pub open spec fn enc_from_epub(v: BookView) -> Seq<char> {
    (",\"epub_file_path\":")@ + (quoted(v.epub_file_path) + enc_from_openlibrary_key(v))
}

#[verifier::opaque]
pub open spec fn enc_from_cover(v: BookView) -> Seq<char> {
    (",\"cover_image_path\":")@ + (opt_str_text(v.cover_image_path) + enc_from_epub(v))
}

#[verifier::opaque]
pub open spec fn enc_from_description(v: BookView) -> Seq<char> {
    (",\"description\":")@ + (opt_str_text(v.description) + enc_from_cover(v))
}

#[verifier::opaque]
pub open spec fn enc_from_publish_date(v: BookView) -> Seq<char> {
    (",\"publish_date\":")@ + (opt_str_text(v.publish_date) + enc_from_description(v))
}

#[verifier::opaque]
pub open spec fn enc_from_publisher(v: BookView) -> Seq<char> {
    (",\"publisher\":")@ + (opt_str_text(v.publisher) + enc_from_publish_date(v))
}

#[verifier::opaque]
pub open spec fn enc_from_isbn_13(v: BookView) -> Seq<char> {
    (",\"isbn_13\":")@ + (opt_str_text(v.isbn_13) + enc_from_publisher(v))
}

#[verifier::opaque]
pub open spec fn enc_from_isbn_10(v: BookView) -> Seq<char> {
    (",\"isbn_10\":")@ + (opt_str_text(v.isbn_10) + enc_from_isbn_13(v))
}

#[verifier::opaque]
pub open spec fn enc_from_author(v: BookView) -> Seq<char> {
    (",\"author\":")@ + (opt_str_text(v.author) + enc_from_isbn_10(v))
}

#[verifier::opaque]
pub open spec fn enc_from_title(v: BookView) -> Seq<char> {
    (",\"title\":")@ + (quoted(v.title) + enc_from_author(v))
}

/// The canonical interchange text of a record.
pub open spec fn spec_encode(v: BookView) -> Seq<char> {
    ("{\"id\":")@ + (quoted(v.id) + enc_from_title(v))
}

/// The numeric fields fit their machine types; true of the view of every
/// [`Book`], and the only inputs the reader accepts back.
pub open spec fn in_bounds(v: BookView) -> bool {
    &&& -0x8000_0000_0000_0000 <= v.created_at <= 0x7fff_ffff_ffff_ffff
    &&& -0x8000_0000_0000_0000 <= v.updated_at <= 0x7fff_ffff_ffff_ffff
    &&& (v.page_count matches Option::Some(p) ==> -0x8000_0000 <= p <= 0x7fff_ffff)
}

/// The view of a real record always fits.
pub proof fn lemma_book_in_bounds(b: &Book)
    ensures
        in_bounds(b@),
{
}

// The reader, staged field by field. Each stage consumes one field from
// the front of `s` and sets it in the record `w` built so far, so that
// both the proofs and the executable reader can walk one stage at a time.

/// The record before any field has been read; every field is overwritten
/// before a stage can hand the record out.
pub open spec fn empty_view() -> BookView {
    BookView {
        id: Seq::empty(),
        title: Seq::empty(),
        author: Option::None,
        isbn_10: Option::None,
        isbn_13: Option::None,
        publisher: Option::None,
        publish_date: Option::None,
        description: Option::None,
        cover_image_path: Option::None,
        epub_file_path: Seq::empty(),
        openlibrary_key: Option::None,
        openlibrary_work_key: Option::None,
        page_count: Option::None,
        language: Option::None,
        created_at: 0,
        updated_at: 0,
    }
}

pub open spec fn dec_end(s: Seq<char>, w: BookView) -> Option<BookView> {
    match expect(s, ("}")@) {
        Option::Some(r) => if r.len() == 0 {
            Option::Some(w)
        } else {
            Option::None
        },
        Option::None => Option::None,
    }
}

pub open spec fn dec_updated(s: Seq<char>, w: BookView) -> Option<BookView> {
    match field_int(s, (",\"updated_at\":")@, -0x8000_0000_0000_0000, 0x7fff_ffff_ffff_ffff) {
        Option::Some((updated_at, r)) => dec_end(r, BookView { updated_at, ..w }),
        Option::None => Option::None,
    }
}

pub open spec fn dec_created(s: Seq<char>, w: BookView) -> Option<BookView> {
    match field_int(s, (",\"created_at\":")@, -0x8000_0000_0000_0000, 0x7fff_ffff_ffff_ffff) {
        Option::Some((created_at, r)) => dec_updated(r, BookView { created_at, ..w }),
        Option::None => Option::None,
    }
}

pub open spec fn dec_language(s: Seq<char>, w: BookView) -> Option<BookView> {
    match field_opt_str(s, (",\"language\":")@) {
        Option::Some((language, r)) => dec_created(r, BookView { language, ..w }),
        Option::None => Option::None,
    }
}

pub open spec fn dec_page_count(s: Seq<char>, w: BookView) -> Option<BookView> {
    match field_opt_int(s, (",\"page_count\":")@, -0x8000_0000, 0x7fff_ffff) {
        Option::Some((page_count, r)) => dec_language(r, BookView { page_count, ..w }),
        Option::None => Option::None,
    }
}

pub open spec fn dec_openlibrary_work_key(s: Seq<char>, w: BookView) -> Option<BookView> {
    match field_opt_str(s, (",\"openlibrary_work_key\":")@) {
        Option::Some((openlibrary_work_key, r)) => dec_page_count(
            r,
            BookView { openlibrary_work_key, ..w },
        ),
        Option::None => Option::None,
    }
}

pub open spec fn dec_openlibrary_key(s: Seq<char>, w: BookView) -> Option<BookView> {
    match field_opt_str(s, (",\"openlibrary_key\":")@) {
        Option::Some((openlibrary_key, r)) => dec_openlibrary_work_key(
            r,
            BookView { openlibrary_key, ..w },
        ),
        Option::None => Option::None,
    }
}

pub open spec fn dec_epub(s: Seq<char>, w: BookView) -> Option<BookView> {
    match field_str(s, (",\"epub_file_path\":")@) {
        Option::Some((epub_file_path, r)) => dec_openlibrary_key(
            r,
            BookView { epub_file_path, ..w },
        ),
        Option::None => Option::None,
    }
}

pub open spec fn dec_cover(s: Seq<char>, w: BookView) -> Option<BookView> {
    match field_opt_str(s, (",\"cover_image_path\":")@) {
        Option::Some((cover_image_path, r)) => dec_epub(r, BookView { cover_image_path, ..w }),
        Option::None => Option::None,
    }
}

pub open spec fn dec_description(s: Seq<char>, w: BookView) -> Option<BookView> {
    match field_opt_str(s, (",\"description\":")@) {
        Option::Some((description, r)) => dec_cover(r, BookView { description, ..w }),
        Option::None => Option::None,
    }
}

pub open spec fn dec_publish_date(s: Seq<char>, w: BookView) -> Option<BookView> {
    match field_opt_str(s, (",\"publish_date\":")@) {
        Option::Some((publish_date, r)) => dec_description(r, BookView { publish_date, ..w }),
        Option::None => Option::None,
    }
}

pub open spec fn dec_publisher(s: Seq<char>, w: BookView) -> Option<BookView> {
    match field_opt_str(s, (",\"publisher\":")@) {
        Option::Some((publisher, r)) => dec_publish_date(r, BookView { publisher, ..w }),
        Option::None => Option::None,
    }
}

pub open spec fn dec_isbn_13(s: Seq<char>, w: BookView) -> Option<BookView> {
    match field_opt_str(s, (",\"isbn_13\":")@) {
        Option::Some((isbn_13, r)) => dec_publisher(r, BookView { isbn_13, ..w }),
        Option::None => Option::None,
    }
}

pub open spec fn dec_isbn_10(s: Seq<char>, w: BookView) -> Option<BookView> {
    match field_opt_str(s, (",\"isbn_10\":")@) {
        Option::Some((isbn_10, r)) => dec_isbn_13(r, BookView { isbn_10, ..w }),
        Option::None => Option::None,
    }
}

pub open spec fn dec_author(s: Seq<char>, w: BookView) -> Option<BookView> {
    match field_opt_str(s, (",\"author\":")@) {
        Option::Some((author, r)) => dec_isbn_10(r, BookView { author, ..w }),
        Option::None => Option::None,
    }
}

pub open spec fn dec_title(s: Seq<char>, w: BookView) -> Option<BookView> {
    match field_str(s, (",\"title\":")@) {
        Option::Some((title, r)) => dec_author(r, BookView { title, ..w }),
        Option::None => Option::None,
    }
}

/// Reads the canonical interchange text back into a record view: every
/// field in order, then the closing brace, with nothing after it.
pub open spec fn spec_decode(s: Seq<char>) -> Option<BookView> {
    match field_str(s, ("{\"id\":")@) {
        Option::Some((id, r)) => dec_title(r, BookView { id, ..empty_view() }),
        Option::None => Option::None,
    }
}

/// Reading back what was written recovers the record exactly: the round
/// trip loses nothing, neither a value nor the absence of one.
pub proof fn lemma_round_trip(v: BookView)
    requires
        in_bounds(v),
    ensures
        spec_decode(spec_encode(v)) == Option::Some(v),
{
    reveal_strlit(",\"language\":");
    reveal_strlit(",\"updated_at\":");
    reveal_strlit("}");
    reveal(enc_from_title);
    reveal(enc_from_author);
    reveal(enc_from_isbn_10);
    reveal(enc_from_isbn_13);
    reveal(enc_from_publisher);
    reveal(enc_from_publish_date);
    reveal(enc_from_description);
    reveal(enc_from_cover);
    reveal(enc_from_epub);
    reveal(enc_from_openlibrary_key);
    reveal(enc_from_openlibrary_work_key);
    reveal(enc_from_page_count);
    reveal(enc_from_language);
    reveal(enc_from_created);
    reveal(enc_from_updated);
    let e = spec_decode(spec_encode(v));
    let w1 = BookView { id: v.id, ..empty_view() };
    let w2 = BookView { title: v.title, ..w1 };
    let w3 = BookView { author: v.author, ..w2 };
    let w4 = BookView { isbn_10: v.isbn_10, ..w3 };
    let w5 = BookView { isbn_13: v.isbn_13, ..w4 };
    let w6 = BookView { publisher: v.publisher, ..w5 };
    let w7 = BookView { publish_date: v.publish_date, ..w6 };
    let w8 = BookView { description: v.description, ..w7 };
    let w9 = BookView { cover_image_path: v.cover_image_path, ..w8 };
    let w10 = BookView { epub_file_path: v.epub_file_path, ..w9 };
    let w11 = BookView { openlibrary_key: v.openlibrary_key, ..w10 };
    let w12 = BookView { openlibrary_work_key: v.openlibrary_work_key, ..w11 };
    let w13 = BookView { page_count: v.page_count, ..w12 };
    let w14 = BookView { language: v.language, ..w13 };
    let w15 = BookView { created_at: v.created_at, ..w14 };
    let w16 = BookView { updated_at: v.updated_at, ..w15 };
    lemma_field_str(("{\"id\":")@, v.id, enc_from_title(v));
    assert(e == dec_title(enc_from_title(v), w1));
    lemma_field_str((",\"title\":")@, v.title, enc_from_author(v));
    assert(e == dec_author(enc_from_author(v), w2));
    lemma_field_opt_str((",\"author\":")@, v.author, enc_from_isbn_10(v));
    assert(e == dec_isbn_10(enc_from_isbn_10(v), w3));
    lemma_field_opt_str((",\"isbn_10\":")@, v.isbn_10, enc_from_isbn_13(v));
    assert(e == dec_isbn_13(enc_from_isbn_13(v), w4));
    lemma_field_opt_str((",\"isbn_13\":")@, v.isbn_13, enc_from_publisher(v));
    assert(e == dec_publisher(enc_from_publisher(v), w5));
    lemma_field_opt_str((",\"publisher\":")@, v.publisher, enc_from_publish_date(v));
    assert(e == dec_publish_date(enc_from_publish_date(v), w6));
    lemma_field_opt_str((",\"publish_date\":")@, v.publish_date, enc_from_description(v));
    assert(e == dec_description(enc_from_description(v), w7));
    lemma_field_opt_str((",\"description\":")@, v.description, enc_from_cover(v));
    assert(e == dec_cover(enc_from_cover(v), w8));
    lemma_field_opt_str((",\"cover_image_path\":")@, v.cover_image_path, enc_from_epub(v));
    assert(e == dec_epub(enc_from_epub(v), w9));
    lemma_field_str((",\"epub_file_path\":")@, v.epub_file_path, enc_from_openlibrary_key(v));
    assert(e == dec_openlibrary_key(enc_from_openlibrary_key(v), w10));
    lemma_field_opt_str(
        (",\"openlibrary_key\":")@,
        v.openlibrary_key,
        enc_from_openlibrary_work_key(v),
    );
    assert(e == dec_openlibrary_work_key(enc_from_openlibrary_work_key(v), w11));
    lemma_field_opt_str(
        (",\"openlibrary_work_key\":")@,
        v.openlibrary_work_key,
        enc_from_page_count(v),
    );
    assert(e == dec_page_count(enc_from_page_count(v), w12));
    assert(enc_from_language(v).len() > 0 && !is_digit(enc_from_language(v)[0])) by {
        assert(enc_from_language(v)[0] == (",\"language\":")@[0]);
    }
    lemma_field_opt_int(
        (",\"page_count\":")@,
        v.page_count,
        -0x8000_0000,
        0x7fff_ffff,
        enc_from_language(v),
    );
    assert(e == dec_language(enc_from_language(v), w13));
    lemma_field_opt_str((",\"language\":")@, v.language, enc_from_created(v));
    assert(e == dec_created(enc_from_created(v), w14));
    assert(enc_from_updated(v).len() > 0 && !is_digit(enc_from_updated(v)[0])) by {
        assert(enc_from_updated(v)[0] == (",\"updated_at\":")@[0]);
    }
    lemma_field_int(
        (",\"created_at\":")@,
        v.created_at,
        -0x8000_0000_0000_0000,
        0x7fff_ffff_ffff_ffff,
        enc_from_updated(v),
    );
    assert(e == dec_updated(enc_from_updated(v), w15));
    assert(("}")@.len() > 0 && !is_digit(("}")@[0]));
    lemma_field_int(
        (",\"updated_at\":")@,
        v.updated_at,
        -0x8000_0000_0000_0000,
        0x7fff_ffff_ffff_ffff,
        ("}")@,
    );
    assert(e == dec_end(("}")@, w16));
    assert(("}")@ + Seq::<char>::empty() =~= ("}")@);
    lemma_expect_prefix(("}")@, Seq::<char>::empty());
    assert(e == Option::Some(w16));
    assert(w16 =~= v);
}

// The writer, staged field by field as the reader is: each step turns
// "what is written so far plus the suffix from this field" into the same
// statement for the next field.

fn enc_step_title(out: &mut Vec<char>, b: &Book)
    requires
        spec_encode(b@) == old(out)@ + enc_from_title(b@),
    ensures
        spec_encode(b@) == final(out)@ + enc_from_author(b@),
{
    push_str_chars(out, ",\"title\":");
    push_quoted(out, b.title.as_str());
    proof {
        reveal(enc_from_title);
        assert(old(out)@ + enc_from_title(b@) =~= out@ + enc_from_author(b@));
    }
}

fn enc_step_author(out: &mut Vec<char>, b: &Book)
    requires
        spec_encode(b@) == old(out)@ + enc_from_author(b@),
    ensures
        spec_encode(b@) == final(out)@ + enc_from_isbn_10(b@),
{
    push_str_chars(out, ",\"author\":");
    push_opt_quoted(out, &b.author);
    proof {
        reveal(enc_from_author);
        assert(old(out)@ + enc_from_author(b@) =~= out@ + enc_from_isbn_10(b@));
    }
}

fn enc_step_isbn_10(out: &mut Vec<char>, b: &Book)
    requires
        spec_encode(b@) == old(out)@ + enc_from_isbn_10(b@),
    ensures
        spec_encode(b@) == final(out)@ + enc_from_isbn_13(b@),
{
    push_str_chars(out, ",\"isbn_10\":");
    push_opt_quoted(out, &b.isbn_10);
    proof {
        reveal(enc_from_isbn_10);
        assert(old(out)@ + enc_from_isbn_10(b@) =~= out@ + enc_from_isbn_13(b@));
    }
}

fn enc_step_isbn_13(out: &mut Vec<char>, b: &Book)
    requires
        spec_encode(b@) == old(out)@ + enc_from_isbn_13(b@),
    ensures
        spec_encode(b@) == final(out)@ + enc_from_publisher(b@),
{
    push_str_chars(out, ",\"isbn_13\":");
    push_opt_quoted(out, &b.isbn_13);
    proof {
        reveal(enc_from_isbn_13);
        assert(old(out)@ + enc_from_isbn_13(b@) =~= out@ + enc_from_publisher(b@));
    }
}

fn enc_step_publisher(out: &mut Vec<char>, b: &Book)
    requires
        spec_encode(b@) == old(out)@ + enc_from_publisher(b@),
    ensures
        spec_encode(b@) == final(out)@ + enc_from_publish_date(b@),
{
    push_str_chars(out, ",\"publisher\":");
    push_opt_quoted(out, &b.publisher);
    proof {
        reveal(enc_from_publisher);
        assert(old(out)@ + enc_from_publisher(b@) =~= out@ + enc_from_publish_date(b@));
    }
}

fn enc_step_publish_date(out: &mut Vec<char>, b: &Book)
    requires
        spec_encode(b@) == old(out)@ + enc_from_publish_date(b@),
    ensures
        spec_encode(b@) == final(out)@ + enc_from_description(b@),
{
    push_str_chars(out, ",\"publish_date\":");
    push_opt_quoted(out, &b.publish_date);
    proof {
        reveal(enc_from_publish_date);
        assert(old(out)@ + enc_from_publish_date(b@) =~= out@ + enc_from_description(b@));
    }
}

fn enc_step_description(out: &mut Vec<char>, b: &Book)
    requires
        spec_encode(b@) == old(out)@ + enc_from_description(b@),
    ensures
        spec_encode(b@) == final(out)@ + enc_from_cover(b@),
{
    push_str_chars(out, ",\"description\":");
    push_opt_quoted(out, &b.description);
    proof {
        reveal(enc_from_description);
        assert(old(out)@ + enc_from_description(b@) =~= out@ + enc_from_cover(b@));
    }
}

fn enc_step_cover(out: &mut Vec<char>, b: &Book)
    requires
        spec_encode(b@) == old(out)@ + enc_from_cover(b@),
    ensures
        spec_encode(b@) == final(out)@ + enc_from_epub(b@),
{
    push_str_chars(out, ",\"cover_image_path\":");
    push_opt_quoted(out, &b.cover_image_path);
    proof {
        reveal(enc_from_cover);
        assert(old(out)@ + enc_from_cover(b@) =~= out@ + enc_from_epub(b@));
    }
}

fn enc_step_epub(out: &mut Vec<char>, b: &Book)
    requires
        spec_encode(b@) == old(out)@ + enc_from_epub(b@),
    ensures
        spec_encode(b@) == final(out)@ + enc_from_openlibrary_key(b@),
{
    push_str_chars(out, ",\"epub_file_path\":");
    push_quoted(out, b.epub_file_path.as_str());
    proof {
        reveal(enc_from_epub);
        assert(old(out)@ + enc_from_epub(b@) =~= out@ + enc_from_openlibrary_key(b@));
    }
}

fn enc_step_openlibrary_key(out: &mut Vec<char>, b: &Book)
    requires
        spec_encode(b@) == old(out)@ + enc_from_openlibrary_key(b@),
    ensures
        spec_encode(b@) == final(out)@ + enc_from_openlibrary_work_key(b@),
{
    push_str_chars(out, ",\"openlibrary_key\":");
    push_opt_quoted(out, &b.openlibrary_key);
    proof {
        reveal(enc_from_openlibrary_key);
        assert(old(out)@ + enc_from_openlibrary_key(b@) =~= out@ + enc_from_openlibrary_work_key(b@));
    }
}

fn enc_step_openlibrary_work_key(out: &mut Vec<char>, b: &Book)
    requires
        spec_encode(b@) == old(out)@ + enc_from_openlibrary_work_key(b@),
    ensures
        spec_encode(b@) == final(out)@ + enc_from_page_count(b@),
{
    push_str_chars(out, ",\"openlibrary_work_key\":");
    push_opt_quoted(out, &b.openlibrary_work_key);
    proof {
        reveal(enc_from_openlibrary_work_key);
        assert(old(out)@ + enc_from_openlibrary_work_key(b@) =~= out@ + enc_from_page_count(b@));
    }
}

fn enc_step_page_count(out: &mut Vec<char>, b: &Book)
    requires
        spec_encode(b@) == old(out)@ + enc_from_page_count(b@),
    ensures
        spec_encode(b@) == final(out)@ + enc_from_language(b@),
{
    push_str_chars(out, ",\"page_count\":");
    push_opt_i32(out, &b.page_count);
    proof {
        reveal(enc_from_page_count);
        assert(old(out)@ + enc_from_page_count(b@) =~= out@ + enc_from_language(b@));
    }
}

fn enc_step_language(out: &mut Vec<char>, b: &Book)
    requires
        spec_encode(b@) == old(out)@ + enc_from_language(b@),
    ensures
        spec_encode(b@) == final(out)@ + enc_from_created(b@),
{
    push_str_chars(out, ",\"language\":");
    push_opt_quoted(out, &b.language);
    proof {
        reveal(enc_from_language);
        assert(old(out)@ + enc_from_language(b@) =~= out@ + enc_from_created(b@));
    }
}

fn enc_step_created(out: &mut Vec<char>, b: &Book)
    requires
        spec_encode(b@) == old(out)@ + enc_from_created(b@),
    ensures
        spec_encode(b@) == final(out)@ + enc_from_updated(b@),
{
    push_str_chars(out, ",\"created_at\":");
    push_i64_text(out, b.created_at);
    proof {
        reveal(enc_from_created);
        assert(old(out)@ + enc_from_created(b@) =~= out@ + enc_from_updated(b@));
    }
}

fn enc_step_updated(out: &mut Vec<char>, b: &Book)
    requires
        spec_encode(b@) == old(out)@ + enc_from_updated(b@),
    ensures
        spec_encode(b@) == final(out)@,
{
    push_str_chars(out, ",\"updated_at\":");
    push_i64_text(out, b.updated_at);
    push_str_chars(out, "}");
    proof {
        reveal(enc_from_updated);
        assert(old(out)@ + enc_from_updated(b@) =~= out@);
    }
}

/// Writes the canonical interchange text of `b`.
pub fn encode_book(b: &Book) -> (s: String)
    ensures
        s@ == spec_encode(b@),
{
    let mut out: Vec<char> = Vec::new();
    push_str_chars(&mut out, "{\"id\":");
    push_quoted(&mut out, b.id.as_str());
    proof {
        assert(spec_encode(b@) =~= out@ + enc_from_title(b@));
    }
    enc_step_title(&mut out, b);
    enc_step_author(&mut out, b);
    enc_step_isbn_10(&mut out, b);
    enc_step_isbn_13(&mut out, b);
    enc_step_publisher(&mut out, b);
    enc_step_publish_date(&mut out, b);
    enc_step_description(&mut out, b);
    enc_step_cover(&mut out, b);
    enc_step_epub(&mut out, b);
    enc_step_openlibrary_key(&mut out, b);
    enc_step_openlibrary_work_key(&mut out, b);
    enc_step_page_count(&mut out, b);
    enc_step_language(&mut out, b);
    enc_step_created(&mut out, b);
    enc_step_updated(&mut out, b);
    chars_to_string(&out)
}

/// Reads the canonical interchange text back into a record; `None` on any
/// text that [`encode_book`] could not have written.
pub fn decode_book(s: &str) -> (r: Option<Book>)
    ensures
        match r {
            Option::Some(b) => spec_decode(s@) == Option::Some(b@),
            Option::None => spec_decode(s@) is None,
        },
{
    let v = str_to_chars(s);
    proof {
        assert(v@.skip(0) =~= s@);
    }
    let (id, i1) = match field_str_exec(&v, 0, "{\"id\":") {
        Some(p) => p,
        None => {
            return None;
        },
    };
    let ghost w1 = BookView { id: id@, ..empty_view() };
    assert(spec_decode(s@) == dec_title(v@.skip(i1 as int), w1));
    let (title, i2) = match field_str_exec(&v, i1, ",\"title\":") {
        Some(p) => p,
        None => {
            return None;
        },
    };
    let ghost w2 = BookView { title: title@, ..w1 };
    assert(spec_decode(s@) == dec_author(v@.skip(i2 as int), w2));
    let (author, i3) = match field_opt_str_exec(&v, i2, ",\"author\":") {
        Some(p) => p,
        None => {
            return None;
        },
    };
    let ghost w3 = BookView { author: opt_str_view(author), ..w2 };
    assert(spec_decode(s@) == dec_isbn_10(v@.skip(i3 as int), w3));
    let (isbn_10, i4) = match field_opt_str_exec(&v, i3, ",\"isbn_10\":") {
        Some(p) => p,
        None => {
            return None;
        },
    };
    let ghost w4 = BookView { isbn_10: opt_str_view(isbn_10), ..w3 };
    assert(spec_decode(s@) == dec_isbn_13(v@.skip(i4 as int), w4));
    let (isbn_13, i5) = match field_opt_str_exec(&v, i4, ",\"isbn_13\":") {
        Some(p) => p,
        None => {
            return None;
        },
    };
    let ghost w5 = BookView { isbn_13: opt_str_view(isbn_13), ..w4 };
    assert(spec_decode(s@) == dec_publisher(v@.skip(i5 as int), w5));
    let (publisher, i6) = match field_opt_str_exec(&v, i5, ",\"publisher\":") {
        Some(p) => p,
        None => {
            return None;
        },
    };
    let ghost w6 = BookView { publisher: opt_str_view(publisher), ..w5 };
    assert(spec_decode(s@) == dec_publish_date(v@.skip(i6 as int), w6));
    let (publish_date, i7) = match field_opt_str_exec(&v, i6, ",\"publish_date\":") {
        Some(p) => p,
        None => {
            return None;
        },
    };
    let ghost w7 = BookView { publish_date: opt_str_view(publish_date), ..w6 };
    assert(spec_decode(s@) == dec_description(v@.skip(i7 as int), w7));
    let (description, i8) = match field_opt_str_exec(&v, i7, ",\"description\":") {
        Some(p) => p,
        None => {
            return None;
        },
    };
    let ghost w8 = BookView { description: opt_str_view(description), ..w7 };
    assert(spec_decode(s@) == dec_cover(v@.skip(i8 as int), w8));
    let (cover_image_path, i9) = match field_opt_str_exec(&v, i8, ",\"cover_image_path\":") {
        Some(p) => p,
        None => {
            return None;
        },
    };
    let ghost w9 = BookView { cover_image_path: opt_str_view(cover_image_path), ..w8 };
    assert(spec_decode(s@) == dec_epub(v@.skip(i9 as int), w9));
    let (epub_file_path, i10) = match field_str_exec(&v, i9, ",\"epub_file_path\":") {
        Some(p) => p,
        None => {
            return None;
        },
    };
    let ghost w10 = BookView { epub_file_path: epub_file_path@, ..w9 };
    assert(spec_decode(s@) == dec_openlibrary_key(v@.skip(i10 as int), w10));
    let (openlibrary_key, i11) = match field_opt_str_exec(&v, i10, ",\"openlibrary_key\":") {
        Some(p) => p,
        None => {
            return None;
        },
    };
    let ghost w11 = BookView { openlibrary_key: opt_str_view(openlibrary_key), ..w10 };
    assert(spec_decode(s@) == dec_openlibrary_work_key(v@.skip(i11 as int), w11));
    let (openlibrary_work_key, i12) = match field_opt_str_exec(
        &v,
        i11,
        ",\"openlibrary_work_key\":",
    ) {
        Some(p) => p,
        None => {
            return None;
        },
    };
    let ghost w12 = BookView { openlibrary_work_key: opt_str_view(openlibrary_work_key), ..w11 };
    assert(spec_decode(s@) == dec_page_count(v@.skip(i12 as int), w12));
    let (pc_wide, i13) = match field_opt_int_exec(
        &v,
        i12,
        ",\"page_count\":",
        -0x8000_0000i64,
        0x7fff_ffffi64,
    ) {
        Some(p) => p,
        None => {
            return None;
        },
    };
    let ghost w13 = BookView { page_count: opt_i64_view(pc_wide), ..w12 };
    assert(spec_decode(s@) == dec_language(v@.skip(i13 as int), w13));
    let (language, i14) = match field_opt_str_exec(&v, i13, ",\"language\":") {
        Some(p) => p,
        None => {
            return None;
        },
    };
    let ghost w14 = BookView { language: opt_str_view(language), ..w13 };
    assert(spec_decode(s@) == dec_created(v@.skip(i14 as int), w14));
    let (created_at, i15) = match field_int_exec(&v, i14, ",\"created_at\":", i64::MIN, i64::MAX) {
        Some(p) => p,
        None => {
            return None;
        },
    };
    let ghost w15 = BookView { created_at: created_at as int, ..w14 };
    assert(spec_decode(s@) == dec_updated(v@.skip(i15 as int), w15));
    let (updated_at, i16) = match field_int_exec(&v, i15, ",\"updated_at\":", i64::MIN, i64::MAX) {
        Some(p) => p,
        None => {
            return None;
        },
    };
    let ghost w16 = BookView { updated_at: updated_at as int, ..w15 };
    assert(spec_decode(s@) == dec_end(v@.skip(i16 as int), w16));
    let i17 = match expect_lit(&v, i16, "}") {
        Some(j) => j,
        None => {
            return None;
        },
    };
    if i17 != v.len() {
        assert(v@.skip(i17 as int).len() != 0);
        return None;
    }
    assert(v@.skip(i17 as int).len() == 0);
    assert(spec_decode(s@) == Option::Some(w16));
    let page_count: Option<i32> = match pc_wide {
        Some(n) => Some(n as i32),
        None => None,
    };
    assert(opt_int_view(page_count) == opt_i64_view(pc_wide));
    let b = Book {
        id,
        title,
        author,
        isbn_10,
        isbn_13,
        publisher,
        publish_date,
        description,
        cover_image_path,
        epub_file_path,
        openlibrary_key,
        openlibrary_work_key,
        page_count,
        language,
        created_at,
        updated_at,
    };
    assert(b@ =~= w16);
    Some(b)
}

} // verus!
