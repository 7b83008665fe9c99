//! Checks on menu files submitted by users: the month they may be for, how many files and
//! how large, which extensions and content types, whether each file's first bytes match
//! its extension, and the safe name each file is stored under.

use vstd::prelude::*;
use crate::calendar::CalendarDate;
use crate::service_errors::IngestionError;
use crate::db_console::{utf8_len, utf8_len_of};
use crate::assistant::str_is;
use crate::text::{
    char_vec, to_lowercase, spec_to_lowercase, extend_str, extend_chars, string_from_chars,
    spec_trim, trim, spec_join, join_with, spec_contains, contains_str, decimal_i128,
    spec_int_decimal, is_ascii_alnum,
};
use crate::calendar::zero_padded;
use crate::validation::opt_string_view;
use vstd::string::StringExecFns;

verus! {

/// Largest accepted file, in bytes (20 MiB).
pub const MAX_FILE_SIZE: usize = 20971520;

/// Most files one submission may carry.
pub const MAX_FILES: usize = 5;

/// A file of a submission.
pub struct IngestedFile {
    pub name: String,
    pub content_type: Option<String>,
    pub data: Vec<u8>,
}

/// A menu submission as read from the multipart form.
pub struct MenuSubmissionInput {
    pub city_slug: String,
    pub year: i32,
    pub month: i32,
    pub notes: Option<String>,
    pub files: Vec<IngestedFile>,
}

/// An ingestion error, by the characters of its message.
pub enum IngestionFailure {
    CityNotFound,
    InvalidInput(Seq<char>),
    FileTooLarge,
    TooManyFiles,
    InvalidFileType(Seq<char>),
    IoError,
    DatabaseError,
}

impl View for IngestionError {
    type V = IngestionFailure;

    open spec fn view(&self) -> IngestionFailure {
        match self {
            IngestionError::CityNotFound => IngestionFailure::CityNotFound,
            IngestionError::InvalidInput(m) => IngestionFailure::InvalidInput(m@),
            IngestionError::FileTooLarge => IngestionFailure::FileTooLarge,
            IngestionError::TooManyFiles => IngestionFailure::TooManyFiles,
            IngestionError::InvalidFileType(m) => IngestionFailure::InvalidFileType(m@),
            IngestionError::IoError(_) => IngestionFailure::IoError,
            IngestionError::DatabaseError(_) => IngestionFailure::DatabaseError,
        }
    }
}

/// The first bytes of a file of each accepted kind.
pub open spec fn signature_of(ext: Seq<char>) -> Option<Seq<u8>> {
    if ext == "png"@ {
        Some(seq![137u8, 80, 78, 71, 13, 10, 26, 10])
    } else if ext == "jpg"@ || ext == "jpeg"@ {
        Some(seq![0xFFu8, 0xD8])
    } else if ext == "pdf"@ {
        Some(seq![0x25u8, 0x50, 0x44, 0x46])
    } else if ext == "xlsx"@ {
        Some(seq![0x50u8, 0x4B, 0x03, 0x04])
    } else if ext == "xls"@ {
        Some(seq![0xD0u8, 0xCF, 17, 224, 161, 177, 26, 225])
    } else {
        None
    }
}

/// The file starts with the signature of its extension.
pub open spec fn spec_signature_ok(data: Seq<u8>, ext: Seq<char>) -> bool {
    match signature_of(ext) {
        Some(sig) => sig.len() <= data.len() && data.take(sig.len() as int) == sig,
        None => false,
    }
}

fn starts_with_bytes(data: &[u8], sig: &[u8]) -> (r: bool)
    ensures
        r == (sig@.len() <= data@.len() && data@.take(sig@.len() as int) == sig@),
{
    if sig.len() > data.len() {
        return false;
    }
    let mut i: usize = 0;
    while i < sig.len()
        invariant
            i <= sig@.len() <= data@.len(),
            data@.take(i as int) == sig@.take(i as int),
        decreases sig@.len() - i,
    {
        if data[i] != sig[i] {
            assert(data@.take(sig@.len() as int)[i as int] != sig@[i as int]);
            return false;
        }
        assert(data@.take(i + 1) =~= data@.take(i as int).push(data@[i as int]));
        assert(sig@.take(i + 1) =~= sig@.take(i as int).push(sig@[i as int]));
        i = i + 1;
    }
    assert(sig@.take(sig@.len() as int) =~= sig@);
    true
}

/// Whether a file's first bytes match its (lowercase) extension.
pub fn verify_file_signature(data: &[u8], ext: &str) -> (r: bool)
    ensures
        r == spec_signature_ok(data@, ext@),
{
    if str_is(ext, "png") {
        let sig: [u8; 8] = [137, 80, 78, 71, 13, 10, 26, 10];
        let r = starts_with_bytes(data, &sig);
        assert(sig@ =~= seq![137u8, 80, 78, 71, 13, 10, 26, 10]);
        r
    } else if str_is(ext, "jpg") || str_is(ext, "jpeg") {
        let sig: [u8; 2] = [0xFF, 0xD8];
        let r = starts_with_bytes(data, &sig);
        assert(sig@ =~= seq![0xFFu8, 0xD8]);
        r
    } else if str_is(ext, "pdf") {
        let sig: [u8; 4] = [0x25, 0x50, 0x44, 0x46];
        let r = starts_with_bytes(data, &sig);
        assert(sig@ =~= seq![0x25u8, 0x50, 0x44, 0x46]);
        r
    } else if str_is(ext, "xlsx") {
        let sig: [u8; 4] = [0x50, 0x4B, 0x03, 0x04];
        let r = starts_with_bytes(data, &sig);
        assert(sig@ =~= seq![0x50u8, 0x4B, 0x03, 0x04]);
        r
    } else if str_is(ext, "xls") {
        let sig: [u8; 8] = [0xD0, 0xCF, 17, 224, 161, 177, 26, 225];
        let r = starts_with_bytes(data, &sig);
        assert(sig@ =~= seq![0xD0u8, 0xCF, 17, 224, 161, 177, 26, 225]);
        r
    } else {
        false
    }
}

/// Index of the last `.` in `s`, or -1.
pub open spec fn last_dot(s: Seq<char>) -> int
    decreases s.len(),
{
    if s.len() == 0 {
        -1
    } else if s.last() == '.' {
        s.len() - 1
    } else {
        last_dot(s.drop_last())
    }
}

/// The extension of a file name: the lowercase text after its last dot (the whole name
/// when there is no dot).
pub open spec fn spec_extension(name: Seq<char>) -> Seq<char> {
    spec_to_lowercase(name.skip(last_dot(name) + 1))
}

proof fn lemma_last_dot(s: Seq<char>)
    ensures
        -1 <= last_dot(s) < s.len(),
        last_dot(s) >= 0 ==> s[last_dot(s)] == '.',
        forall|j: int| last_dot(s) < j < s.len() ==> s[j] != '.',
    decreases s.len(),
{
    if s.len() > 0 && s.last() != '.' {
        lemma_last_dot(s.drop_last());
        assert forall|j: int| last_dot(s) < j < s.len() implies s[j] != '.' by {
            if j < s.len() - 1 {
                assert(s[j] == s.drop_last()[j]);
            }
        }
    }
}

/// The lowercase extension of a file name.
pub fn file_extension(name: &str) -> (r: String)
    ensures
        r@ == spec_extension(name@),
{
    let v = char_vec(name);
    let mut i: usize = v.len();
    assert(v@.take(v@.len() as int) =~= v@);
    while i > 0 && v[i - 1] != '.'
        invariant
            i <= v@.len(),
            last_dot(v@) == last_dot(v@.take(i as int)),
        decreases i,
    {
        assert(v@.take(i as int).drop_last() =~= v@.take(i - 1));
        i = i - 1;
    }
    proof {
        assert(v@.take(v@.len() as int) =~= v@);
        if i > 0 {
            assert(v@.take(i as int).last() == v@[i - 1]);
        }
        assert(v@.take(0) =~= Seq::<char>::empty());
    }
    let tail = crate::text::slice_chars(v.as_slice(), i, v.len());
    assert(tail@ =~= v@.skip(last_dot(v@) + 1));
    let t = string_from_chars(tail.as_slice());
    to_lowercase(t.as_str())
}

/// An accepted extension.
pub open spec fn is_allowed_extension(ext: Seq<char>) -> bool {
    ext == "xlsx"@ || ext == "xls"@ || ext == "pdf"@ || ext == "png"@ || ext == "jpg"@ || ext == "jpeg"@
}

/// An accepted content type.
pub open spec fn is_allowed_mime(ct: Seq<char>) -> bool {
    ct == "application/vnd.openxmlformats-officedocument.spreadsheetml.sheet"@
        || ct == "application/vnd.ms-excel"@ || ct == "application/pdf"@ || ct == "image/png"@
        || ct == "image/jpeg"@ || ct == "image/pjpeg"@
}

/// What `Path::file_name` gives for a path: its last component, unless the path ends in
/// `..` or has no component (then `None`). What separates components depends on the
/// target: `/` on Unix, where the server runs, and also `\` (with drive prefixes) on
/// Windows; the name stands for the behaviour of the target the crate is built for.
pub uninterp spec fn path_file_name(path: Seq<char>) -> Option<Seq<char>>;

/// `std::path::Path::file_name` of a string path, as text; its result is named by
/// `path_file_name`.
#[verifier::external_body]
fn file_name_of(path: &str) -> (r: Option<String>)
    ensures
        opt_string_view(&r) == path_file_name(path@),
{
    match std::path::Path::new(path).file_name() {
        Some(n) => match n.to_str() {
            Some(s) => Some(s.to_string()),
            None => None,
        },
        None => None,
    }
}

/// A stored file name: ASCII letters, digits, `.`, `-` and `_` are kept, every other
/// character becomes `_`.
pub open spec fn sanitize_name(s: Seq<char>) -> Seq<char> {
    s.map_values(|c: char| if is_ascii_alnum(c) || c == '.' || c == '-' || c == '_' { c } else { '_' })
}

fn sanitize_chars(s: &[char]) -> (r: Vec<char>)
    ensures
        r@ == sanitize_name(s@),
{
    let mut out: Vec<char> = Vec::new();
    let mut i: usize = 0;
    while i < s.len()
        invariant
            i <= s@.len(),
            out@ == sanitize_name(s@.take(i as int)),
        decreases s@.len() - i,
    {
        let c = s[i];
        let d = if crate::text::ascii_alnum(c) || c == '.' || c == '-' || c == '_' { c } else { '_' };
        out.push(d);
        assert(out@ =~= sanitize_name(s@.take(i + 1)));
        i = i + 1;
    }
    assert(s@.take(s@.len() as int) =~= s@);
    out
}

/// The checks on one file, in order: size, extension, content type, first bytes, and a
/// file name without path traversal; `Ok` carries the name the file is stored under.
pub open spec fn spec_validate_file(name: Seq<char>, content_type: Option<Seq<char>>, data: Seq<u8>) -> Result<Seq<char>, IngestionFailure> {
    let ext = spec_extension(name);
    let base = match path_file_name(name) {
        Some(b) => b,
        None => Seq::empty(),
    };
    if data.len() > MAX_FILE_SIZE {
        Err(IngestionFailure::FileTooLarge)
    } else if !is_allowed_extension(ext) {
        Err(IngestionFailure::InvalidFileType(name))
    } else if content_type is None {
        Err(IngestionFailure::InvalidFileType(name + ": MIME tipi eksik"@))
    } else if !is_allowed_mime(content_type->0) {
        Err(IngestionFailure::InvalidFileType(name + ": Geçersiz MIME tipi ("@ + content_type->0 + ")"@))
    } else if !spec_signature_ok(data, ext) {
        Err(IngestionFailure::InvalidFileType(name + ": Dosya içeriği doğrulaması başarısız (Magic Bytes uyuşmazlığı)"@))
    } else if base.len() == 0 || spec_contains(base, ".."@) {
        Err(IngestionFailure::InvalidFileType(name))
    } else {
        Ok(sanitize_name(base))
    }
}

fn allowed_extension(ext: &str) -> (r: bool)
    ensures
        r == is_allowed_extension(ext@),
{
    str_is(ext, "xlsx") || str_is(ext, "xls") || str_is(ext, "pdf") || str_is(ext, "png") || str_is(ext, "jpg")
        || str_is(ext, "jpeg")
}

fn allowed_mime(ct: &str) -> (r: bool)
    ensures
        r == is_allowed_mime(ct@),
{
    str_is(ct, "application/vnd.openxmlformats-officedocument.spreadsheetml.sheet")
        || str_is(ct, "application/vnd.ms-excel") || str_is(ct, "application/pdf") || str_is(ct, "image/png")
        || str_is(ct, "image/jpeg") || str_is(ct, "image/pjpeg")
}

fn with_suffix(name: &str, suffix: &str) -> (r: String)
    ensures
        r@ == name@ + suffix@,
{
    let mut out = char_vec(name);
    extend_str(&mut out, suffix);
    string_from_chars(out.as_slice())
}

fn with_three(name: &str, a: &str, b: &str, c: &str) -> (r: String)
    ensures
        r@ == name@ + a@ + b@ + c@,
{
    let mut out = char_vec(name);
    extend_str(&mut out, a);
    extend_str(&mut out, b);
    extend_str(&mut out, c);
    string_from_chars(out.as_slice())
}

/// Checks one file of a submission and returns the name to store it under.
pub fn validate_file(file: &IngestedFile) -> (r: Result<String, IngestionError>)
    ensures
        match r {
            Ok(n) => spec_validate_file(file.name@, opt_string_view(&file.content_type), file.data@) == Ok::<Seq<char>, IngestionFailure>(n@),
            Err(e) => spec_validate_file(file.name@, opt_string_view(&file.content_type), file.data@) == Err::<Seq<char>, IngestionFailure>(e@),
        },
{
    if file.data.len() > MAX_FILE_SIZE {
        return Err(IngestionError::FileTooLarge);
    }
    let ext = file_extension(file.name.as_str());
    if !allowed_extension(ext.as_str()) {
        return Err(IngestionError::InvalidFileType(file.name.clone()));
    }
    match &file.content_type {
        Some(ct) => {
            if !allowed_mime(ct.as_str()) {
                return Err(IngestionError::InvalidFileType(with_three(file.name.as_str(), ": Geçersiz MIME tipi (", ct.as_str(), ")")));
            }
        },
        None => {
            return Err(IngestionError::InvalidFileType(with_suffix(file.name.as_str(), ": MIME tipi eksik")));
        },
    }
    if !verify_file_signature(file.data.as_slice(), ext.as_str()) {
        return Err(IngestionError::InvalidFileType(with_suffix(file.name.as_str(), ": Dosya içeriği doğrulaması başarısız (Magic Bytes uyuşmazlığı)")));
    }
    let base = match file_name_of(file.name.as_str()) {
        Some(b) => b,
        None => String::new(),
    };
    let bv = char_vec(base.as_str());
    if bv.len() == 0 || contains_str(bv.as_slice(), "..") {
        return Err(IngestionError::InvalidFileType(file.name.clone()));
    }
    let clean = sanitize_chars(bv.as_slice());
    Ok(string_from_chars(clean.as_slice()))
}

/// The last month a submission may be for: the month after `today`'s.
pub open spec fn max_submission_month(today: CalendarDate) -> (int, int) {
    if today.month == 12 {
        (today.year + 1, 1)
    } else {
        (today.year as int, today.month + 1)
    }
}

/// The checks on the month and notes of a submission: from January 2026 up to the month
/// after `today`'s, a month in `1..=12`, and notes of at most 1000 bytes.
pub open spec fn spec_period_check(year: i32, month: i32, notes: Option<Seq<char>>, today: CalendarDate) -> Result<(), IngestionFailure> {
    let (my, mm) = max_submission_month(today);
    if year < 2026 || year > my || (year == my && month > mm) {
        Err(IngestionFailure::InvalidInput(
            "Menü tarihi 2026-01 ile "@ + spec_int_decimal(my) + "-"@ + zero_padded(mm as nat, 2) + " arasında olmalıdır"@,
        ))
    } else if month < 1 || month > 12 {
        Err(IngestionFailure::InvalidInput("Geçersiz ay (1-12 arasında olmalıdır)"@))
    } else if notes matches Some(n) && utf8_len(n) > 1000 {
        Err(IngestionFailure::InvalidInput("Notlar en fazla 1000 karakter olabilir"@))
    } else {
        Ok(())
    }
}

/// Checks the month and the notes of a submission against `today`.
pub fn check_period(year: i32, month: i32, notes: &Option<String>, today: CalendarDate) -> (r: Result<(), IngestionError>)
    requires
        today.wf(),
    ensures
        match r {
            Ok(()) => spec_period_check(year, month, opt_string_view(notes), today) == Ok::<(), IngestionFailure>(()),
            Err(e) => spec_period_check(year, month, opt_string_view(notes), today) == Err::<(), IngestionFailure>(e@),
        },
{
    let (my, mm): (i32, u32) = if today.month == 12 { (today.year + 1, 1) } else { (today.year, today.month + 1) };
    if year < 2026 || year > my || (year == my && month > mm as i32) {
        let mut msg: Vec<char> = Vec::new();
        extend_str(&mut msg, "Menü tarihi 2026-01 ile ");
        let yv = decimal_i128(my as i128);
        extend_chars(&mut msg, yv.as_slice());
        extend_str(&mut msg, "-");
        let mv = crate::assistant::zero_pad2(mm);
        extend_chars(&mut msg, mv.as_slice());
        extend_str(&mut msg, " arasında olmalıdır");
        return Err(IngestionError::InvalidInput(string_from_chars(msg.as_slice())));
    }
    if month < 1 || month > 12 {
        return Err(IngestionError::InvalidInput(String::from_str("Geçersiz ay (1-12 arasında olmalıdır)")));
    }
    match notes {
        Some(n) => {
            let nv = char_vec(n.as_str());
            if utf8_len_of(nv.as_slice()) > 1000 {
                return Err(IngestionError::InvalidInput(String::from_str("Notlar en fazla 1000 karakter olabilir")));
            }
        },
        None => {},
    }
    Ok(())
}

/// The stored names of files that all passed their checks, or the first failure.
pub open spec fn spec_validate_files(files: Seq<IngestedFile>) -> Result<Seq<Seq<char>>, IngestionFailure>
    decreases files.len(),
{
    if files.len() == 0 {
        Ok(Seq::empty())
    } else {
        match spec_validate_files(files.drop_last()) {
            Ok(names) => match spec_validate_file(files.last().name@, opt_string_view(&files.last().content_type), files.last().data@) {
                Ok(n) => Ok(names.push(n)),
                Err(e) => Err(e),
            },
            Err(e) => Err(e),
        }
    }
}

/// All the checks of a submission before its city is looked up: the month and notes,
/// then at most five files and at least one, then each file in order.
pub open spec fn spec_validate_submission(input: MenuSubmissionInput, today: CalendarDate) -> Result<Seq<Seq<char>>, IngestionFailure> {
    match spec_period_check(input.year, input.month, opt_string_view(&input.notes), today) {
        Err(e) => Err(e),
        Ok(()) => if input.files@.len() > MAX_FILES {
            Err(IngestionFailure::TooManyFiles)
        } else if input.files@.len() == 0 {
            Err(IngestionFailure::InvalidInput("En az bir dosya gönderilmelidir"@))
        } else {
            spec_validate_files(input.files@)
        },
    }
}

/// Checks a submission and returns the names its files are to be stored under.
pub fn validate_submission(input: &MenuSubmissionInput, today: CalendarDate) -> (r: Result<Vec<String>, IngestionError>)
    requires
        today.wf(),
    ensures
        match r {
            Ok(v) => spec_validate_submission(*input, today) == Ok::<Seq<Seq<char>>, IngestionFailure>(v@.map_values(|s: String| s@)),
            Err(e) => spec_validate_submission(*input, today) == Err::<Seq<Seq<char>>, IngestionFailure>(e@),
        },
{
    match check_period(input.year, input.month, &input.notes, today) {
        Err(e) => return Err(e),
        Ok(()) => {},
    }
    if input.files.len() > MAX_FILES {
        return Err(IngestionError::TooManyFiles);
    }
    if input.files.len() == 0 {
        return Err(IngestionError::InvalidInput(String::from_str("En az bir dosya gönderilmelidir")));
    }
    let mut names: Vec<String> = Vec::new();
    let mut i: usize = 0;
    let ghost files = input.files@;
    assert(files.take(0) =~= Seq::<IngestedFile>::empty());
    assert(names@.map_values(|s: String| s@) =~= Seq::<Seq<char>>::empty());
    while i < input.files.len()
        invariant
            i <= files.len(),
            files == input.files@,
            spec_period_check(input.year, input.month, opt_string_view(&input.notes), today) == Ok::<(), IngestionFailure>(()),
            0 < files.len() <= MAX_FILES,
            spec_validate_files(files.take(i as int)) == Ok::<Seq<Seq<char>>, IngestionFailure>(names@.map_values(|s: String| s@)),
        decreases files.len() - i,
    {
        proof {
            assert(files.take(i + 1).drop_last() =~= files.take(i as int));
            assert(files.take(i + 1).last() == files[i as int]);
        }
        match validate_file(&input.files[i]) {
            Ok(n) => {
                let ghost before = names@.map_values(|s: String| s@);
                let ghost nv = n@;
                names.push(n);
                assert(names@.map_values(|s: String| s@) =~= before.push(nv));
            },
            Err(e) => {
                proof {
                    lemma_validate_files_err(files, i as int);
                }
                return Err(e);
            },
        }
        i = i + 1;
    }
    assert(files.take(files.len() as int) =~= files);
    Ok(names)
}

proof fn lemma_validate_files_err(files: Seq<IngestedFile>, i: int)
    requires
        0 <= i < files.len(),
        spec_validate_files(files.take(i + 1)) is Err,
    ensures
        spec_validate_files(files) == spec_validate_files(files.take(i + 1)),
    decreases files.len() - i,
{
    if i + 1 < files.len() {
        assert(files.take(i + 2).drop_last() =~= files.take(i + 1));
        lemma_validate_files_err(files, i + 1);
    } else {
        assert(files.take(i + 1) =~= files);
    }
}

/// The notes stored with a submission: the user's notes (when not blank) followed by the
/// list of stored files.
pub open spec fn spec_submission_notes(notes: Option<Seq<char>>, files: Seq<Seq<char>>) -> Seq<char> {
    let n = match notes {
        Some(n) => n,
        None => Seq::empty(),
    };
    if spec_trim(n).len() == 0 {
        "Dosyalar: "@ + spec_join(files, ", "@)
    } else {
        n + "\nDosyalar: "@ + spec_join(files, ", "@)
    }
}

/// Builds the notes stored with a submission.
pub fn submission_notes(notes: &Option<String>, files: &Vec<String>) -> (r: String)
    ensures
        r@ == spec_submission_notes(opt_string_view(notes), files@.map_values(|s: String| s@)),
{
    let n = match notes {
        Some(n) => char_vec(n.as_str()),
        None => Vec::new(),
    };
    let mut fv: Vec<Vec<char>> = Vec::new();
    let mut i: usize = 0;
    while i < files.len()
        invariant
            i <= files@.len(),
            fv@.map_values(|w: Vec<char>| w@) == files@.map_values(|s: String| s@).take(i as int),
        decreases files@.len() - i,
    {
        let ghost before = fv@.map_values(|w: Vec<char>| w@);
        let w = char_vec(files[i].as_str());
        fv.push(w);
        proof {
            assert(fv@.map_values(|w: Vec<char>| w@) =~= before.push(files@[i as int]@));
            assert(files@.map_values(|s: String| s@).take(i + 1) =~= files@.map_values(|s: String| s@).take(i as int).push(files@[i as int]@));
        }
        i = i + 1;
    }
    assert(files@.map_values(|s: String| s@).take(files@.len() as int) =~= files@.map_values(|s: String| s@));
    let sep = char_vec(", ");
    let joined = join_with(&fv, sep.as_slice());
    let t = crate::text::trim_chars(n.as_slice());
    let mut out: Vec<char> = Vec::new();
    if t.len() == 0 {
        extend_str(&mut out, "Dosyalar: ");
    } else {
        extend_chars(&mut out, n.as_slice());
        extend_str(&mut out, "\nDosyalar: ");
    }
    extend_chars(&mut out, joined.as_slice());
    string_from_chars(out.as_slice())
}

} // verus!
