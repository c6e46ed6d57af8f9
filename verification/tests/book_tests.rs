use book_model::clamp_seconds;
use book_model::current_timestamp;
use book_model::decode_book;
use book_model::encode_book;
use book_model::Book;

#[test]
fn should_create_new_book_with_uuid_and_timestamps() {
    // Given: A title and epub path
    let title = "Test Book".to_string();
    let epub_path = "/path/to/book.epub".to_string();

    // When: Creating a new book
    let book = Book::new(title.clone(), epub_path.clone());

    // Then: Book should have valid UUID and timestamps
    assert!(!book.id.is_empty());
    assert_eq!(book.title, title);
    assert_eq!(book.epub_file_path, epub_path);
    assert!(book.created_at > 0);
    assert_eq!(book.created_at, book.updated_at);
    assert!(book.author.is_none());
}

#[test]
fn should_update_timestamp_on_modification() {
    // Given: A book
    let mut book = Book::new("Test".to_string(), "/path.epub".to_string());
    let original_timestamp = book.updated_at;

    // When: Updating the timestamp
    book.update_timestamp();

    // Then: Updated timestamp should not have moved backwards
    assert!(book.updated_at >= original_timestamp);
}

#[test]
fn should_parse_uuid_from_book_id() {
    // Given: A new book
    let book = Book::new("Test".to_string(), "/path.epub".to_string());

    // When: Parsing the UUID from ID
    let uuid_result = uuid::Uuid::parse_str(&book.id);

    // Then: Should be a valid UUID
    assert!(uuid_result.is_ok());
}

#[test]
fn new_books_have_distinct_ids() {
    let a = Book::new("A".to_string(), "/a.epub".to_string());
    let b = Book::new("B".to_string(), "/b.epub".to_string());
    assert_ne!(a.id, b.id);
    assert!(b.updated_at >= a.updated_at);
}

#[test]
fn id_has_hyphenated_uuid_v4_shape() {
    let book = Book::new("Test".to_string(), "/path.epub".to_string());
    assert_eq!(book.id.len(), 36);
    for (i, c) in book.id.chars().enumerate() {
        if i == 8 || i == 13 || i == 18 || i == 23 {
            assert_eq!(c, '-');
        } else {
            assert!(c.is_ascii_hexdigit() && !c.is_ascii_uppercase());
        }
        if i == 14 {
            assert_eq!(c, '4');
        }
        if i == 19 {
            assert!(c == '8' || c == '9' || c == 'a' || c == 'b');
        }
    }
}

#[test]
fn clamp_seconds_passes_saturates_and_degrades() {
    assert_eq!(clamp_seconds(Some(0)), 0);
    assert_eq!(clamp_seconds(Some(1700000000)), 1700000000);
    assert_eq!(clamp_seconds(Some(i64::MAX as u64)), i64::MAX);
    assert_eq!(clamp_seconds(Some(u64::MAX)), i64::MAX);
    assert_eq!(clamp_seconds(None), 0);
}

#[test]
fn advance_updated_at_moves_only_forward() {
    let mut book = Book::new("Test".to_string(), "/path.epub".to_string());
    let t0 = book.updated_at;
    book.advance_updated_at(t0 + 100);
    assert_eq!(book.updated_at, t0 + 100);
    book.advance_updated_at(t0);
    assert_eq!(book.updated_at, t0 + 100);
    assert_eq!(book.created_at, t0);
}

#[test]
fn dune_scenario() {
    let book = Book::new("Dune".to_string(), "/library/dune.epub".to_string());
    assert_eq!(book.title, "Dune");
    assert_eq!(book.epub_file_path, "/library/dune.epub");
    assert!(book.author.is_none());
    assert!(!book.id.is_empty());
    assert!(uuid::Uuid::parse_str(&book.id).is_ok());
    assert_eq!(book.created_at, book.updated_at);
    assert!(book.created_at > 0);
}

#[test]
fn update_keeps_created_at() {
    let mut book = Book::new("Test".to_string(), "/path.epub".to_string());
    let created = book.created_at;
    let t0 = book.updated_at;
    book.update_timestamp();
    assert!(book.updated_at >= t0);
    assert_eq!(book.created_at, created);
}

#[test]
fn current_timestamp_is_positive() {
    let t = current_timestamp();
    assert!(t > 0);
}

fn fields_equal(a: &Book, b: &Book) -> bool {
    a.id == b.id
        && a.title == b.title
        && a.author == b.author
        && a.isbn_10 == b.isbn_10
        && a.isbn_13 == b.isbn_13
        && a.publisher == b.publisher
        && a.publish_date == b.publish_date
        && a.description == b.description
        && a.cover_image_path == b.cover_image_path
        && a.epub_file_path == b.epub_file_path
        && a.openlibrary_key == b.openlibrary_key
        && a.openlibrary_work_key == b.openlibrary_work_key
        && a.page_count == b.page_count
        && a.language == b.language
        && a.created_at == b.created_at
        && a.updated_at == b.updated_at
}

#[test]
fn round_trip_with_all_fields_present() {
    let mut book = Book::new("Dune".to_string(), "/library/dune.epub".to_string());
    book.author = Some("Frank \"Herbert\"\\ and \n\t friends".to_string());
    book.isbn_10 = Some("0441172717".to_string());
    book.isbn_13 = Some("9780441172719".to_string());
    book.publisher = Some("Chilton Books".to_string());
    book.publish_date = Some("1965".to_string());
    book.description = Some("A desert planet, \u{1f} control char inside".to_string());
    book.cover_image_path = Some("/covers/dune.jpg".to_string());
    book.openlibrary_key = Some("OL893415W".to_string());
    book.openlibrary_work_key = Some("OL45883W".to_string());
    book.page_count = Some(412);
    book.language = Some("en".to_string());
    book.update_timestamp();

    let text = encode_book(&book);
    let back = decode_book(&text).expect("canonical text must decode");
    assert!(fields_equal(&book, &back));
}

#[test]
fn round_trip_with_absent_fields() {
    let book = Book::new("Bare".to_string(), "/bare.epub".to_string());
    let text = encode_book(&book);
    let back = decode_book(&text).expect("canonical text must decode");
    assert!(fields_equal(&book, &back));
    assert!(back.author.is_none());
    assert!(back.page_count.is_none());
}

#[test]
fn round_trip_keeps_absent_distinct_from_empty() {
    let mut with_empty = Book::new("T".to_string(), "/t.epub".to_string());
    with_empty.author = Some(String::new());
    let without = Book::new("T".to_string(), "/t.epub".to_string());

    let back_empty = decode_book(&encode_book(&with_empty)).unwrap();
    let back_none = decode_book(&encode_book(&without)).unwrap();
    assert_eq!(back_empty.author, Some(String::new()));
    assert_eq!(back_none.author, None);
}

#[test]
fn round_trip_with_negative_numbers() {
    let mut book = Book::new("T".to_string(), "/t.epub".to_string());
    book.page_count = Some(-7);
    book.created_at = -12345;
    book.updated_at = i64::MAX;
    let back = decode_book(&encode_book(&book)).unwrap();
    assert!(fields_equal(&book, &back));
}

#[test]
fn encode_writes_the_exact_canonical_text() {
    let mut book = Book::new("Dune".to_string(), "/library/dune.epub".to_string());
    book.id = "123e4567-e89b-42d3-a456-426614174000".to_string();
    book.author = Some("Frank Herbert".to_string());
    book.page_count = Some(412);
    book.created_at = 1700000000;
    book.updated_at = 1700000001;
    let text = encode_book(&book);
    let mut expected = String::new();
    expected.push_str("{\"id\":\"123e4567-e89b-42d3-a456-426614174000\",");
    expected.push_str("\"title\":\"Dune\",");
    expected.push_str("\"author\":\"Frank Herbert\",");
    expected.push_str("\"isbn_10\":null,");
    expected.push_str("\"isbn_13\":null,");
    expected.push_str("\"publisher\":null,");
    expected.push_str("\"publish_date\":null,");
    expected.push_str("\"description\":null,");
    expected.push_str("\"cover_image_path\":null,");
    expected.push_str("\"epub_file_path\":\"/library/dune.epub\",");
    expected.push_str("\"openlibrary_key\":null,");
    expected.push_str("\"openlibrary_work_key\":null,");
    expected.push_str("\"page_count\":412,");
    expected.push_str("\"language\":null,");
    expected.push_str("\"created_at\":1700000000,");
    expected.push_str("\"updated_at\":1700000001}");
    assert_eq!(text, expected);
}

#[test]
fn encode_escapes_control_characters() {
    let mut book = Book::new("a\u{1f}b".to_string(), "/t.epub".to_string());
    book.id = "123e4567-e89b-42d3-a456-426614174000".to_string();
    let text = encode_book(&book);
    assert!(text.contains("\"title\":\"a\\u001fb\""));
}

#[test]
fn decode_rejects_malformed_text() {
    assert!(decode_book("").is_none());
    assert!(decode_book("{}").is_none());
    assert!(decode_book("not json at all").is_none());
    let book = Book::new("T".to_string(), "/t.epub".to_string());
    let mut text = encode_book(&book);
    text.push(' ');
    assert!(decode_book(&text).is_none());
    let truncated = &encode_book(&book)[..10];
    assert!(decode_book(truncated).is_none());
}

#[test]
fn encoded_text_is_ordinary_json() {
    let mut book = Book::new("Dune".to_string(), "/library/dune.epub".to_string());
    book.author = Some("Frank \"Herbert\"".to_string());
    book.page_count = Some(412);
    let text = encode_book(&book);
    let value: serde_json::Value = serde_json::from_str(&text).expect("must be valid JSON");
    assert_eq!(value["title"], serde_json::Value::String("Dune".to_string()));
    assert_eq!(
        value["author"],
        serde_json::Value::String("Frank \"Herbert\"".to_string())
    );
    assert_eq!(value["page_count"], serde_json::Value::from(412));
    assert_eq!(value["isbn_10"], serde_json::Value::Null);
}
