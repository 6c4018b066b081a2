//! Rules of the receipt folder layout: `{root}/YYYY/MM/`, the files listed in a
//! month, names of copies, and thumbnails as data URLs. Reading and writing the
//! disk is left to the caller.
use vstd::prelude::*;
use crate::entity::opt_view;
use crate::decimal::{chars_of, slice_chars, integer_value, parse_integer};
use crate::order::{keys_in_order, sort_by_key_text, Keyed};
use crate::text::{decimal_digits, push_digits, push_zero_padded, zero_padded};

verus! {

#[verifier::external_type_specification]
#[verifier::external_body]
pub struct ExDecodeError(base64::DecodeError);

/// The character of a six-bit value in the standard base64 alphabet.
pub open spec fn base64_char(n: int) -> char {
    "ABCDEFGHIJKLMNOPQRSTUVWXYZabcdefghijklmnopqrstuvwxyz0123456789+/"@[n]
}

/// Standard base64 with padding: each three bytes become four characters, and
/// a last one or two bytes are padded with `=`.
pub open spec fn base64_of(b: Seq<u8>) -> Seq<char>
    decreases b.len(),
{
    if b.len() == 0 {
        Seq::empty()
    } else if b.len() == 1 {
        seq![base64_char((b[0] as int) / 4), base64_char(((b[0] as int) % 4) * 16), '=', '=']
    } else if b.len() == 2 {
        seq![
            base64_char((b[0] as int) / 4),
            base64_char(((b[0] as int) % 4) * 16 + (b[1] as int) / 16),
            base64_char(((b[1] as int) % 16) * 4),
            '=',
        ]
    } else {
        seq![
            base64_char((b[0] as int) / 4),
            base64_char(((b[0] as int) % 4) * 16 + (b[1] as int) / 16),
            base64_char(((b[1] as int) % 16) * 4 + (b[2] as int) / 64),
            base64_char((b[2] as int) % 64),
        ] + base64_of(b.skip(3))
    }
}

/// Relies on `base64::Engine::encode` with the `STANDARD` engine.
#[verifier::external_body]
fn base64_encode(bytes: &Vec<u8>) -> (r: String)
    ensures
        r@ == base64_of(bytes@),
{
    base64::Engine::encode(&base64::engine::general_purpose::STANDARD, bytes)
}

/// Relies on `base64::Engine::decode` with the `STANDARD` engine, which requires
/// canonical padding and no trailing bits: it reads exactly the texts that the
/// same engine writes, back to the bytes they were written from.
#[verifier::external_body]
fn base64_decode(text: &str) -> (r: Result<Vec<u8>, base64::DecodeError>)
    ensures
        match r {
            Ok(b) => base64_of(b@) == text@,
            Err(_) => forall|b: Seq<u8>| #[trigger] base64_of(b) != text@,
        },
{
    base64::Engine::decode(&base64::engine::general_purpose::STANDARD, text)
}

/// Relies on `base64::DecodeError`'s `Display`.
#[verifier::external_body]
fn decode_error_text(e: &base64::DecodeError) -> (r: String) {
    e.to_string()
}

/// The extension of a file name, as `std::path::Path::extension` reads it.
pub uninterp spec fn extension_of(name: Seq<char>) -> Option<Seq<char>>;

/// Relies on `std::path::Path::extension`: the text after the last point of a file name.
#[verifier::external_body]
fn path_extension(name: &str) -> (r: Option<String>)
    ensures
        opt_view(r) == extension_of(name@),
{
    std::path::Path::new(name).extension().and_then(|s| s.to_str()).map(|s| s.to_string())
}

/// What `str::to_lowercase` makes of some text.
pub uninterp spec fn lower_of(s: Seq<char>) -> Seq<char>;

/// Relies on `str::to_lowercase`: the result depends on the characters alone.
#[verifier::external_body]
fn lowercase(s: &str) -> (r: String)
    ensures
        r@ == lower_of(s@),
{
    s.to_lowercase()
}

/// What a directory check found.
pub struct DirectoryValidation {
    pub exists: bool,
    pub is_directory: bool,
    pub is_writable: bool,
}

/// A month directory under the root.
pub struct MonthDirectoryInfo {
    pub year: String,
    pub month: String,
    /// `YYYYMM`
    pub year_month: String,
    pub path: String,
    pub has_excel: bool,
}

/// A receipt file of a month directory.
pub struct FileInfo {
    pub name: String,
    pub path: String,
    pub is_image: bool,
    pub is_pdf: bool,
    pub size: u64,
}

/// Where a file was copied to.
pub struct CopyFileResult {
    pub original_path: String,
    pub destination_path: String,
    pub file_name: String,
}

impl Keyed for MonthDirectoryInfo {
    open spec fn key(&self) -> Seq<char> {
        self.year_month@
    }

    fn key_text(&self) -> (r: &String) {
        &self.year_month
    }
}

impl Keyed for FileInfo {
    open spec fn key(&self) -> Seq<char> {
        self.name@
    }

    fn key_text(&self) -> (r: &String) {
        &self.name
    }
}

/// Month directories, newest `YYYYMM` first.
pub fn newest_first(months: Vec<MonthDirectoryInfo>) -> (r: Vec<MonthDirectoryInfo>)
    ensures
        r@.to_multiset() == months@.to_multiset(),
        keys_in_order(r@, true),
{
    sort_by_key_text(months, true)
}

/// Files, by name.
pub fn by_name(files: Vec<FileInfo>) -> (r: Vec<FileInfo>)
    ensures
        r@.to_multiset() == files@.to_multiset(),
        keys_in_order(r@, false),
{
    sort_by_key_text(files, false)
}

/// Why a `YYYYMM` text was refused.
pub enum YearMonthError {
    Length,
    Year,
    Month,
    MonthRange,
}

/// The message that reports a refused `YYYYMM` text.
pub open spec fn year_month_error_text(e: YearMonthError) -> Seq<char> {
    match e {
        YearMonthError::Length => "年月は YYYYMM 形式で指定してください"@,
        YearMonthError::Year => "年が無効です"@,
        YearMonthError::Month => "月が無効です"@,
        YearMonthError::MonthRange => "月は01から12の範囲で指定してください"@,
    }
}

impl YearMonthError {
    /// The message that reports this error.
    pub fn message(&self) -> (r: String)
        ensures
            r@ == year_month_error_text(*self),
    {
        match self {
            YearMonthError::Length => String::from_str("年月は YYYYMM 形式で指定してください"),
            YearMonthError::Year => String::from_str("年が無効です"),
            YearMonthError::Month => String::from_str("月が無効です"),
            YearMonthError::MonthRange => String::from_str("月は01から12の範囲で指定してください"),
        }
    }
}

/// A month in `YYYYMM` form, split.
pub struct YearMonth {
    pub year: String,
    pub month: String,
    pub month_number: u32,
}

/// What an unsigned decimal (digits with an optional plus sign) reads as.
pub open spec fn unsigned_value(s: Seq<char>) -> Option<int> {
    if s.len() > 0 && s[0] == '-' {
        None
    } else {
        integer_value(s)
    }
}

pub open spec fn year_month_result(s: Seq<char>) -> Result<(Seq<char>, Seq<char>, int), YearMonthError> {
    if s.len() != 6 {
        Err(YearMonthError::Length)
    } else if unsigned_value(s.take(4)) is None {
        Err(YearMonthError::Year)
    } else if unsigned_value(s.skip(4)) is None {
        Err(YearMonthError::Month)
    } else if !(1 <= unsigned_value(s.skip(4))->0 <= 12) {
        Err(YearMonthError::MonthRange)
    } else {
        Ok((s.take(4), s.skip(4), unsigned_value(s.skip(4))->0))
    }
}

pub open spec fn ends_with(s: Seq<char>, suffix: Seq<char>) -> bool {
    s.len() >= suffix.len() && s.subrange(s.len() - suffix.len(), s.len() as int) == suffix
}

pub open spec fn starts_with(s: Seq<char>, prefix: Seq<char>) -> bool {
    s.len() >= prefix.len() && s.take(prefix.len() as int) == prefix
}

fn equal_at(s: &Vec<char>, start: usize, p: &Vec<char>) -> (r: bool)
    requires
        start + p@.len() <= s@.len(),
    ensures
        r == (s@.subrange(start as int, start + p@.len()) == p@),
{
    let n = s.len();
    let mut j: usize = 0;
    while j < p.len()
        invariant
            n == s@.len(),
            start + p@.len() <= n,
            j <= p@.len(),
            forall|k: int| 0 <= k < j ==> s@[start + k] == p@[k],
        decreases p@.len() - j,
    {
        if s[start + j] != p[j] {
            assert(s@.subrange(start as int, start + p@.len())[j as int] != p@[j as int]);
            return false;
        }
        j = j + 1;
    }
    assert(s@.subrange(start as int, start + p@.len()) =~= p@);
    true
}

fn has_suffix(s: &Vec<char>, suffix: &str) -> (r: bool)
    ensures
        r == ends_with(s@, suffix@),
{
    let p = chars_of(suffix);
    if p.len() > s.len() {
        return false;
    }
    equal_at(s, s.len() - p.len(), &p)
}

fn has_prefix(s: &Vec<char>, prefix: &str) -> (r: bool)
    ensures
        r == starts_with(s@, prefix@),
{
    let p = chars_of(prefix);
    if p.len() > s.len() {
        return false;
    }
    let r = equal_at(s, 0, &p);
    assert(s@.subrange(0, p@.len() as int) =~= s@.take(p@.len() as int));
    r
}

fn parse_unsigned(s: &Vec<char>) -> (r: Option<i64>)
    ensures
        match r {
            Some(v) => unsigned_value(s@) == Some(v as int),
            None => unsigned_value(s@) is None,
        },
{
    if s.len() > 0 && s[0] == '-' {
        return None;
    }
    parse_integer(s)
}

/// Splits a `YYYYMM` text into year and month, checking that both are numbers
/// and that the month is from 1 to 12.
pub fn parse_year_month(year_month: &str) -> (r: Result<YearMonth, YearMonthError>)
    ensures
        match year_month_result(year_month@) {
            Ok((y, m, n)) => r matches Ok(v) && v.year@ == y && v.month@ == m && v.month_number == n,
            Err(YearMonthError::Length) => r matches Err(YearMonthError::Length),
            Err(YearMonthError::Year) => r matches Err(YearMonthError::Year),
            Err(YearMonthError::Month) => r matches Err(YearMonthError::Month),
            Err(YearMonthError::MonthRange) => r matches Err(YearMonthError::MonthRange),
        },
{
    let c = chars_of(year_month);
    if c.len() != 6 {
        return Err(YearMonthError::Length);
    }
    let year = slice_chars(&c, 0, 4);
    let month = slice_chars(&c, 4, 6);
    assert(year@ =~= c@.take(4));
    assert(month@ =~= c@.skip(4));
    if parse_unsigned(&year).is_none() {
        return Err(YearMonthError::Year);
    }
    let n = match parse_unsigned(&month) {
        Some(n) => n,
        None => return Err(YearMonthError::Month),
    };
    if !(1 <= n && n <= 12) {
        return Err(YearMonthError::MonthRange);
    }
    Ok(
        YearMonth {
            year: String::from_str(year_month.substring_char(0, 4)),
            month: String::from_str(year_month.substring_char(4, 6)),
            month_number: n as u32,
        },
    )
}

/// Whether a directory name is a year: four characters that read as a number.
pub fn is_year_dir_name(name: &str) -> (r: bool)
    ensures
        r == (name@.len() == 4 && unsigned_value(name@) is Some),
{
    let c = chars_of(name);
    c.len() == 4 && parse_unsigned(&c).is_some()
}

/// The month a directory name stands for: two characters that read as a number
/// from 1 to 12.
pub fn month_dir_number(name: &str) -> (r: Option<u32>)
    ensures
        match r {
            Some(m) => name@.len() == 2 && unsigned_value(name@) == Some(m as int) && 1 <= m <= 12,
            None => !(name@.len() == 2 && (unsigned_value(name@) matches Some(v) && 1 <= v <= 12)),
        },
{
    let c = chars_of(name);
    if c.len() != 2 {
        return None;
    }
    match parse_unsigned(&c) {
        Some(v) => if 1 <= v && v <= 12 {
            Some(v as u32)
        } else {
            None
        },
        None => None,
    }
}

/// `YYYYMM` for a year name and a month number.
pub fn year_month_key(year: &str, month: u32) -> (r: String)
    requires
        month <= 12,
    ensures
        r@ == year@ + zero_padded(month as int, 2),
{
    let mut out = String::from_str(year);
    push_zero_padded(&mut out, month as i32, 2);
    out
}

/// The name of a month's summary workbook.
pub fn summary_file_name(year_month: &str) -> (r: String)
    ensures
        r@ == year_month@ + "-summary.xlsx"@,
{
    let mut out = String::from_str(year_month);
    out.append("-summary.xlsx");
    out
}

/// Whether a file is a month summary rather than a receipt.
pub fn is_summary_file(name: &str) -> (r: bool)
    ensures
        r == (ends_with(name@, "-summary.json"@) || ends_with(name@, "-summary.xlsx"@)),
{
    let c = chars_of(name);
    has_suffix(&c, "-summary.json") || has_suffix(&c, "-summary.xlsx")
}

/// What a receipt file holds, by its extension.
pub enum FileKind {
    Image,
    Pdf,
    Other,
}

pub open spec fn image_extensions() -> Seq<Seq<char>> {
    seq!["jpg"@, "jpeg"@, "png"@, "gif"@, "webp"@, "heic"@, "heif"@]
}

pub open spec fn kind_of_extension(ext: Seq<char>) -> FileKind {
    if image_extensions().contains(ext) {
        FileKind::Image
    } else if ext == "pdf"@ {
        FileKind::Pdf
    } else {
        FileKind::Other
    }
}

/// The kind of file a lower-case extension names.
pub fn file_kind(ext: &str) -> (r: FileKind)
    ensures
        r == kind_of_extension(ext@),
{
    let e = String::from_str(ext);
    let images = vec![
        String::from_str("jpg"),
        String::from_str("jpeg"),
        String::from_str("png"),
        String::from_str("gif"),
        String::from_str("webp"),
        String::from_str("heic"),
        String::from_str("heif"),
    ];
    assert(images@.map_values(|s: String| s@) =~= image_extensions());
    let mut i: usize = 0;
    while i < images.len()
        invariant
            i <= images@.len(),
            images@.map_values(|s: String| s@) == image_extensions(),
            e@ == ext@,
            forall|j: int| 0 <= j < i ==> image_extensions()[j] != e@,
        decreases images@.len() - i,
    {
        assert(images@.map_values(|s: String| s@)[i as int] == images@[i as int]@);
        if images[i].eq(&e) {
            assert(image_extensions()[i as int] == e@);
            assert(image_extensions().contains(ext@));
            return FileKind::Image;
        }
        i = i + 1;
    }
    if e.eq(&String::from_str("pdf")) {
        FileKind::Pdf
    } else {
        FileKind::Other
    }
}

/// The kind of a file by its name's extension, case aside; `None` for a month summary.
pub fn classify_file_name(name: &str) -> (r: Option<FileKind>)
    ensures
        r == (if ends_with(name@, "-summary.json"@) || ends_with(name@, "-summary.xlsx"@) {
            None
        } else {
            Some(kind_of_extension(lower_of(extension_of(name@).unwrap_or(Seq::empty()))))
        }),
{
    if is_summary_file(name) {
        return None;
    }
    let ext = match path_extension(name) {
        Some(e) => e,
        None => String::new(),
    };
    Some(file_kind(lowercase(ext.as_str()).as_str()))
}

/// The `counter`-th alternative name for a copy: `stem_counter.ext`, or
/// `stem_counter` without an extension.
pub fn numbered_name(stem: &str, extension: &str, counter: u32) -> (r: String)
    ensures
        r@ == stem@ + "_"@ + decimal_digits(counter as nat) + (if extension@.len() == 0 {
            Seq::empty()
        } else {
            "."@ + extension@
        }),
{
    let mut out = String::from_str(stem);
    out.append("_");
    push_digits(&mut out, counter);
    if extension.unicode_len() > 0 {
        out.append(".");
        out.append(extension);
    }
    assert(out@ =~= stem@ + "_"@ + decimal_digits(counter as nat) + (if extension@.len() == 0 {
        Seq::empty()
    } else {
        "."@ + extension@
    }));
    out
}

/// The file a thumbnail of `file_name` is kept in.
pub fn thumbnail_file_name(file_name: &str) -> (r: String)
    ensures
        r@ == file_name@ + ".thumbnail.png"@,
{
    let mut out = String::from_str(file_name);
    out.append(".thumbnail.png");
    out
}

pub open spec fn data_url_prefixes() -> Seq<Seq<char>> {
    seq!["data:image/png;base64,"@, "data:image/jpeg;base64,"@, "data:image/webp;base64,"@]
}

/// The base64 part of a PNG, JPEG or WebP data URL.
pub open spec fn data_url_payload(url: Seq<char>) -> Option<Seq<char>> {
    if starts_with(url, data_url_prefixes()[0]) {
        Some(url.skip(data_url_prefixes()[0].len() as int))
    } else if starts_with(url, data_url_prefixes()[1]) {
        Some(url.skip(data_url_prefixes()[1].len() as int))
    } else if starts_with(url, data_url_prefixes()[2]) {
        Some(url.skip(data_url_prefixes()[2].len() as int))
    } else {
        None
    }
}

fn strip_prefix(url: &str, prefix: &str) -> (r: Option<String>)
    ensures
        match r {
            Some(s) => starts_with(url@, prefix@) && s@ == url@.skip(prefix@.len() as int),
            None => !starts_with(url@, prefix@),
        },
{
    let c = chars_of(url);
    if has_prefix(&c, prefix) {
        let n = prefix.unicode_len();
        let rest = url.substring_char(n, url.unicode_len());
        assert(rest@ =~= url@.skip(prefix@.len() as int));
        Some(String::from_str(rest))
    } else {
        None
    }
}

/// The base64 part of a PNG, JPEG or WebP data URL.
pub fn thumbnail_payload(data_url: &str) -> (r: Option<String>)
    ensures
        match r {
            Some(s) => data_url_payload(data_url@) == Some(s@),
            None => data_url_payload(data_url@) is None,
        },
{
    match strip_prefix(data_url, "data:image/png;base64,") {
        Some(s) => return Some(s),
        None => {},
    }
    match strip_prefix(data_url, "data:image/jpeg;base64,") {
        Some(s) => return Some(s),
        None => {},
    }
    strip_prefix(data_url, "data:image/webp;base64,")
}

/// Why a thumbnail could not be read from a data URL.
pub enum ThumbnailError {
    /// Not a PNG, JPEG or WebP data URL.
    NotDataUrl,
    /// The payload is not base64.
    Decode(String),
}

/// The image bytes of a thumbnail sent as a data URL.
pub fn decode_thumbnail(data_url: &str) -> (r: Result<Vec<u8>, ThumbnailError>)
    ensures
        match data_url_payload(data_url@) {
            None => r matches Err(ThumbnailError::NotDataUrl),
            Some(p) => match r {
                Ok(v) => base64_of(v@) == p,
                Err(ThumbnailError::Decode(_)) => forall|b: Seq<u8>| #[trigger] base64_of(b) != p,
                Err(ThumbnailError::NotDataUrl) => false,
            },
        },
{
    let payload = match thumbnail_payload(data_url) {
        Some(p) => p,
        None => return Err(ThumbnailError::NotDataUrl),
    };
    match base64_decode(payload.as_str()) {
        Ok(b) => Ok(b),
        Err(e) => Err(ThumbnailError::Decode(decode_error_text(&e))),
    }
}

/// A stored thumbnail as a PNG data URL.
pub fn thumbnail_data_url(bytes: &Vec<u8>) -> (r: String)
    ensures
        r@ == "data:image/png;base64,"@ + base64_of(bytes@),
{
    let mut out = String::from_str("data:image/png;base64,");
    out.append(base64_encode(bytes).as_str());
    out
}

} // verus!
