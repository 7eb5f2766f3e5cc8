//! Typst compilation to PDF: an in-memory Typst world holding the source,
//! the embedded fonts and the files the document may read, and the error
//! reports of a failed compilation or export.
use vstd::prelude::*;
use typst::diag::{FileError, FileResult};
use typst::foundations::{Bytes, Datetime};
use typst::layout::PagedDocument;
use typst::syntax::{FileId, Source, VirtualPath};
use typst::text::{Font, FontBook};
use typst::utils::LazyHash;
use typst::{Library, LibraryExt, World};
use crate::date::{civil_from_days, day_in_range, day_of, shifted_secs, today_ymd};
use crate::text::{chars_of, contains, contains_chars, join, push_joined, starts_with, starts_with_chars, str_eq, views};

verus! {

#[verifier::external_type_specification]
#[verifier::external_body]
pub struct ExSource(Source);

#[verifier::external_type_specification]
#[verifier::external_body]
pub struct ExFileId(FileId);

#[verifier::external_type_specification]
#[verifier::external_body]
pub struct ExBytes(Bytes);

#[verifier::external_type_specification]
#[verifier::external_body]
pub struct ExFont(Font);

#[verifier::external_type_specification]
#[verifier::external_body]
pub struct ExFontBook(FontBook);

#[verifier::external_type_specification]
#[verifier::external_body]
pub struct ExLibrary(Library);

#[verifier::external_type_specification]
#[verifier::external_body]
pub struct ExDatetime(Datetime);

#[verifier::external_type_specification]
#[verifier::external_body]
#[verifier::reject_recursive_types(T)]
pub struct ExLazyHash<T: ?Sized>(LazyHash<T>);

#[verifier::external_type_specification]
#[verifier::external_body]
pub struct ExFileError(FileError);

#[verifier::external_type_specification]
#[verifier::external_body]
pub struct ExDuration(typst::foundations::Duration);

#[verifier::external_type_specification]
#[verifier::external_body]
pub struct ExEcoString(typst::ecow::EcoString);

#[verifier::external_type_specification]
#[verifier::external_body]
pub struct ExPagedDocument(PagedDocument);

/// Whether a path names a resource on the web.
pub open spec fn spec_is_http_url(path: Seq<char>) -> bool {
    starts_with(path, "https://"@) || starts_with(path, "http://"@)
}

/// Returns true if the given path looks like an HTTP(S) URL.
pub fn is_http_url(path: &str) -> (r: bool)
    ensures
        r == spec_is_http_url(path@),
{
    let p = chars_of(path);
    starts_with_chars(&p, &chars_of("https://")) || starts_with_chars(&p, &chars_of("http://"))
}

/// The path under which Typst asks for the file at `path`: the path made
/// rootless and normalised, as `VirtualPath` gives it.
pub uninterp spec fn typst_file_key(path: Seq<char>) -> Seq<char>;

/// The path under which Typst asks for a file.
///
/// Trusted: calls `VirtualPath::new(path).as_rootless_path()`, taking the
/// result lossily as text; claimed only to be a function of the path.
#[verifier::external_body]
fn virtual_key(path: &str) -> (r: String)
    ensures
        r@ == typst_file_key(path@),
{
    VirtualPath::new(path).as_rootless_path().to_string_lossy().into_owned()
}

/// Whether no source before the `k`-th one has its key.
pub open spec fn first_of_key(v: Seq<Seq<char>>, k: int) -> bool {
    forall|j: int| 0 <= j < k ==> #[trigger] typst_file_key(v[j]) != typst_file_key(v[k])
}

/// The first `k` sources with their keys, but for each one whose key an
/// earlier source has.
pub open spec fn file_requests(v: Seq<Seq<char>>, k: int) -> Seq<(Seq<char>, Seq<char>)>
    decreases k,
{
    if k <= 0 {
        seq![]
    } else {
        file_requests(v, k - 1) + if first_of_key(v, k - 1) {
            seq![(v[k - 1], typst_file_key(v[k - 1]))]
        } else {
            seq![]
        }
    }
}

/// The files to fetch for the given sources: each source with the path
/// under which Typst asks for it, one for each path.
pub fn image_requests(sources: &Vec<String>) -> (r: Vec<(String, String)>)
    ensures
        r@.map_values(|p: (String, String)| (p.0@, p.1@)) == file_requests(
            views(sources@),
            sources@.len() as int,
        ),
{
    let ghost v = views(sources@);
    let mut keys: Vec<String> = Vec::new();
    let n = sources.len();
    let mut i: usize = 0;
    while i < n
        invariant
            n == sources@.len(),
            i <= n,
            v == views(sources@),
            keys@.len() == i,
            forall|m: int| 0 <= m < i ==> #[trigger] keys@[m]@ == typst_file_key(v[m]),
        decreases n - i,
    {
        let k = virtual_key(sources[i].as_str());
        keys.push(k);
        i = i + 1;
    }
    let mut r: Vec<(String, String)> = Vec::new();
    i = 0;
    while i < n
        invariant
            n == sources@.len(),
            i <= n,
            v == views(sources@),
            keys@.len() == n,
            forall|m: int| 0 <= m < n ==> #[trigger] keys@[m]@ == typst_file_key(v[m]),
            r@.map_values(|p: (String, String)| (p.0@, p.1@)) == file_requests(v, i as int),
        decreases n - i,
    {
        let mut first = true;
        let mut j: usize = 0;
        while j < i
            invariant
                j <= i < n,
                keys@.len() == n,
                forall|m: int| 0 <= m < n ==> #[trigger] keys@[m]@ == typst_file_key(v[m]),
                first == (forall|m: int|
                    0 <= m < j ==> #[trigger] typst_file_key(v[m]) != typst_file_key(v[i as int])),
            decreases i - j,
        {
            assert(keys@[j as int]@ == typst_file_key(v[j as int]));
            assert(keys@[i as int]@ == typst_file_key(v[i as int]));
            if str_eq(keys[j].as_str(), keys[i].as_str()) {
                first = false;
            }
            j = j + 1;
        }
        assert(first == first_of_key(v, i as int));
        if first {
            let ghost before = r@;
            assert(v[i as int] == sources@[i as int]@);
            r.push((sources[i].clone(), keys[i].clone()));
            assert(r@.map_values(|p: (String, String)| (p.0@, p.1@)) =~= before.map_values(
                |p: (String, String)| (p.0@, p.1@),
            ) + seq![(v[i as int], typst_file_key(v[i as int]))]);
        } else {
            assert(file_requests(v, i + 1) =~= file_requests(v, i as int));
        }
        i = i + 1;
    }
    r
}

/// A Typst world in memory: the main source, the standard library, the
/// embedded fonts, and the files the document may read, by path.
pub struct MemWorld {
    text: String,
    source: Source,
    main_id: FileId,
    library: LazyHash<Library>,
    book: LazyHash<FontBook>,
    fonts: Vec<Font>,
    files: Vec<(String, Vec<u8>)>,
    clock: Option<u64>,
}

/// The files as pairs of texts and bytes.
pub open spec fn file_views(files: Seq<(String, Vec<u8>)>) -> Seq<(Seq<char>, Seq<u8>)> {
    files.map_values(|f: (String, Vec<u8>)| (f.0@, f.1@))
}

/// Whether no file before the `k`-th one has its path.
pub open spec fn first_of_path(v: Seq<(Seq<char>, Seq<u8>)>, k: int) -> bool {
    forall|j: int| 0 <= j < k ==> #[trigger] v[j].0 != v[k].0
}

/// The first `k` files, but for each one whose path an earlier file has.
pub open spec fn first_files(v: Seq<(Seq<char>, Seq<u8>)>, k: int) -> Seq<(Seq<char>, Seq<u8>)>
    decreases k,
{
    if k <= 0 {
        seq![]
    } else {
        first_files(v, k - 1) + if first_of_path(v, k - 1) {
            seq![v[k - 1]]
        } else {
            seq![]
        }
    }
}

/// The main source file, `main.typ`, holding `text`.
///
/// Trusted: calls `Source::new` with the id of `main.typ`.
#[verifier::external_body]
fn main_source(text: &str) -> Source {
    Source::new(FileId::new(None, VirtualPath::new("main.typ")), text.to_string())
}

/// The id of a source file.
///
/// Trusted: calls `Source::id`.
#[verifier::external_body]
fn source_id(source: &Source) -> FileId {
    source.id()
}

/// Whether two file ids are the same.
///
/// Trusted: compares the ids with `==`; a `FileId` is a number that Typst
/// gives each path, and two ids are equal when their numbers are.
#[verifier::external_body]
fn same_file(a: &FileId, b: &FileId) -> (r: bool)
    ensures
        r == (*a == *b),
{
    *a == *b
}

/// The path that the file with id `id` has, rootless, as text.
///
/// Trusted: calls `id.vpath().as_rootless_path()`, taking the path lossily
/// as text; nothing is claimed of the result, since the id is opaque here.
#[verifier::external_body]
fn requested_path(id: &FileId) -> String {
    id.vpath().as_rootless_path().to_string_lossy().into_owned()
}

/// The error that reports no file at the path of `id`.
///
/// Trusted: makes `FileError::NotFound` with the rootless path of `id`.
#[verifier::external_body]
fn not_found(id: &FileId) -> FileError {
    FileError::NotFound(id.vpath().as_rootless_path().to_path_buf())
}

/// A copy of a source file.
///
/// Trusted: calls `Source::clone`, which shares the source's text.
#[verifier::external_body]
fn copy_source(source: &Source) -> Source {
    source.clone()
}

/// A copy of a font.
///
/// Trusted: calls `Font::clone`, which shares the font's data.
#[verifier::external_body]
fn copy_font(font: &Font) -> Font {
    font.clone()
}

/// The bytes of a file as Typst holds them.
///
/// Trusted: calls `Bytes::new` on a copy of `data`.
#[verifier::external_body]
fn bytes_of(data: &Vec<u8>) -> Bytes {
    Bytes::new(data.clone())
}

/// The `i`-th font file that typst-assets embeds, where there is one.
pub uninterp spec fn asset_font_file(i: nat) -> Option<Seq<u8>>;

/// The font files embedded in typst-assets.
///
/// Trusted: calls `typst_assets::fonts`, copying each file's bytes; the
/// files are fixed data of that crate, the `i`-th one named by
/// `asset_font_file(i)`.
#[verifier::external_body]
fn asset_font_files() -> (r: Vec<Vec<u8>>)
    ensures
        forall|i: int| 0 <= i < r@.len() ==> asset_font_file(i as nat) == Some(#[trigger] r@[i]@),
        asset_font_file(r@.len()) is None,
{
    typst_assets::fonts().map(|data| data.to_vec()).collect()
}

/// How many fonts `Font::iter` finds in a font file.
pub uninterp spec fn font_count(data: Seq<u8>) -> nat;

/// The fonts in a font file.
///
/// Trusted: calls `Font::iter` on the file's bytes, which yields the faces
/// of the file that parse; claimed only that their number is a function
/// of the bytes.
#[verifier::external_body]
fn fonts_in(data: Vec<u8>) -> (r: Vec<Font>)
    ensures
        r@.len() == font_count(data@),
{
    Font::iter(Bytes::new(data)).collect()
}

/// Whether `files` are the font files of typst-assets, in order.
pub open spec fn embedded_files(files: Seq<Seq<u8>>) -> bool {
    &&& forall|i: int| 0 <= i < files.len() ==> asset_font_file(i as nat) == Some(#[trigger] files[i])
    &&& asset_font_file(files.len()) is None
}

/// The number of fonts in the font files `files` together.
pub open spec fn fonts_total(files: Seq<Seq<u8>>) -> nat
    decreases files.len(),
{
    if files.len() == 0 {
        0
    } else {
        fonts_total(files.drop_last()) + font_count(files.last())
    }
}

/// The fonts embedded in typst-assets, file by file: as many as those
/// files hold together.
fn embedded_fonts() -> (r: Vec<Font>)
    ensures
        exists|files: Seq<Seq<u8>>| embedded_files(files) && r@.len() == fonts_total(files),
{
    let files = asset_font_files();
    let ghost views: Seq<Seq<u8>> = files@.map_values(|f: Vec<u8>| f@);
    let mut fonts: Vec<Font> = Vec::new();
    let n = files.len();
    for i in 0..n
        invariant
            n == files@.len(),
            views == files@.map_values(|f: Vec<u8>| f@),
            fonts@.len() == fonts_total(views.take(i as int)),
    {
        let data = files[i].clone();
        assert(data@ == views[i as int]);
        let mut found = fonts_in(data);
        fonts.append(&mut found);
        assert(views.take(i + 1).drop_last() =~= views.take(i as int));
    }
    proof {
        assert(views.take(n as int) =~= views);
        assert forall|i: int| 0 <= i < views.len() implies asset_font_file(i as nat) == Some(
            #[trigger] views[i],
        ) by {
            assert(views[i] == files@[i]@);
        }
        assert(embedded_files(views));
    }
    fonts
}

/// The font book describing `fonts`, in order.
///
/// Trusted: calls `FontBook::from_fonts`.
#[verifier::external_body]
fn font_book(fonts: &Vec<Font>) -> LazyHash<FontBook> {
    LazyHash::new(FontBook::from_fonts(fonts.iter()))
}

/// Typst's standard library with its default settings.
///
/// Trusted: calls `Library::builder().build()`.
#[verifier::external_body]
fn standard_library() -> LazyHash<Library> {
    LazyHash::new(Library::builder().build())
}

impl MemWorld {
    /// The files that the document may read, each under its path.
    pub closed spec fn readable_files(&self) -> Seq<(String, Vec<u8>)> {
        self.files@
    }

    /// The text of the main source.
    pub closed spec fn source_text(&self) -> Seq<char> {
        self.text@
    }

    /// The seconds since 1970-01-01 UTC when the world was made, where the
    /// clock was after that.
    pub closed spec fn clock(&self) -> Option<u64> {
        self.clock
    }

    /// A world compiling `typst_src`, with the embedded fonts and the given
    /// files (the first one under each path), reading the clock once.
    pub fn new(typst_src: &str, files: Vec<(String, Vec<u8>)>) -> (r: Self)
        ensures
            r.readable_files() == files@,
            r.source_text() == typst_src@,
    {
        let fonts = embedded_fonts();
        let book = font_book(&fonts);
        let source = main_source(typst_src);
        let main_id = source_id(&source);
        MemWorld {
            text: typst_src.to_owned(),
            source,
            main_id,
            library: standard_library(),
            book,
            fonts,
            files,
            clock: now_unix_secs(),
        }
    }

    /// Where the document reads the file at `path`: the first of the files
    /// under that path, if there is one.
    pub fn file_index(&self, path: &str) -> (r: Option<usize>)
        ensures
            match r {
                Some(i) => i < self.readable_files().len() && self.readable_files()[i as int].0@
                    == path@ && forall|j: int|
                    0 <= j < i ==> #[trigger] self.readable_files()[j].0@ != path@,
                None => forall|j: int|
                    0 <= j < self.readable_files().len() ==> #[trigger] self.readable_files()[j].0@
                        != path@,
            },
    {
        let n = self.files.len();
        let mut i: usize = 0;
        while i < n
            invariant
                n == self.files@.len(),
                i <= n,
                forall|j: int| 0 <= j < i ==> #[trigger] self.files@[j].0@ != path@,
            decreases n - i,
        {
            if str_eq(self.files[i].0.as_str(), path) {
                return Some(i);
            }
            i = i + 1;
        }
        None
    }

    /// Today's date at UTC offset `offset` (in hours), by the world's clock.
    pub fn date_today(&self, offset: Option<i64>) -> (r: Option<(i32, u8, u8)>)
        ensures
            match self.clock() {
                None => r is None,
                Some(now) => match r {
                    Some(date) => shifted_secs(now, offset) matches Some(secs) && day_in_range(
                        day_of(secs),
                    ) && date.0 as int == civil_from_days(day_of(secs)).0 && date.1 as int
                        == civil_from_days(day_of(secs)).1 && date.2 as int == civil_from_days(
                        day_of(secs),
                    ).2,
                    None => !(shifted_secs(now, offset) matches Some(secs) && day_in_range(
                        day_of(secs),
                    )),
                },
            },
    {
        match self.clock {
            Some(now) => today_ymd(now, offset),
            None => None,
        }
    }
}

/// The seconds since 1970-01-01 UTC, where the clock is after that.
///
/// Trusted: calls `SystemTime::now().duration_since(UNIX_EPOCH)`; nothing is
/// claimed of the result, which depends on the clock.
#[verifier::external_body]
fn now_unix_secs() -> Option<u64> {
    std::time::SystemTime::now().duration_since(std::time::UNIX_EPOCH).ok().map(|d| d.as_secs())
}

/// The date `Datetime::from_ymd` makes of a year, month and day.
///
/// Trusted: calls `Datetime::from_ymd`; nothing is claimed of the result.
#[verifier::external_body]
fn datetime_of(date: (i32, u8, u8)) -> Option<Datetime> {
    Datetime::from_ymd(date.0, date.1, date.2)
}

impl World for MemWorld {
    /// Typst's standard library.
    fn library(&self) -> &LazyHash<Library> {
        &self.library
    }

    /// The book describing the embedded fonts.
    fn book(&self) -> &LazyHash<FontBook> {
        &self.book
    }

    /// The id of the main source, `main.typ`.
    fn main(&self) -> FileId {
        self.main_id
    }

    /// The main source, the only source there is.
    fn source(&self, id: FileId) -> FileResult<Source> {
        if same_file(&id, &self.main_id) {
            Ok(copy_source(&self.source))
        } else {
            Err(not_found(&id))
        }
    }

    /// The first of the files under the path of `id`.
    fn file(&self, id: FileId) -> FileResult<Bytes> {
        let path = requested_path(&id);
        match self.file_index(path.as_str()) {
            Some(i) => Ok(bytes_of(&self.files[i].1)),
            None => Err(not_found(&id)),
        }
    }

    /// The `index`-th embedded font.
    fn font(&self, index: usize) -> Option<Font> {
        if index < self.fonts.len() {
            Some(copy_font(&self.fonts[index]))
        } else {
            None
        }
    }

    /// Today's date by the world's clock, at the given UTC offset.
    fn today(&self, offset: Option<i64>) -> Option<Datetime> {
        match self.date_today(offset) {
            Some(d) => datetime_of(d),
            None => None,
        }
    }
}

/// Whether `out` is an outcome that Typst can give when it compiles the
/// source text `src`, where the document can read the files `files` (the
/// first one under each path) and the embedded fonts, and exports the
/// document as PDF with the default options: the PDF bytes, or the
/// messages of the errors of compilation (`true`) or of export (`false`).
pub uninterp spec fn typst_outcome(
    src: Seq<char>,
    files: Seq<(Seq<char>, Seq<u8>)>,
    out: Result<Seq<u8>, (bool, Seq<Seq<char>>)>,
) -> bool;

/// The outcome of a compilation and export as plain values.
pub open spec fn outcome_view(r: Result<Vec<u8>, (bool, Vec<String>)>) -> Result<
    Seq<u8>,
    (bool, Seq<Seq<char>>),
> {
    match r {
        Ok(b) => Ok(b@),
        Err((compiling, m)) => Err((compiling, views(m@))),
    }
}

/// Whether bytes start with a PDF header, `%PDF-`.
pub open spec fn pdf_header(b: Seq<u8>) -> bool {
    b.len() >= 5 && b[0] == 0x25 && b[1] == 0x50 && b[2] == 0x44 && b[3] == 0x46 && b[4] == 0x2d
}

/// Compiles the world's main source and exports the document as PDF bytes,
/// or gives the messages of the errors of the step that failed; with the
/// messages of the warnings of the compilation.
///
/// Trusted: calls `typst::compile`, then `typst_pdf::pdf` with the default
/// options.  Claimed: the outcome is one that Typst can give for the
/// world's source text and files (which outcome depends on the clock, so
/// it is not named as a function of them); PDF bytes start with the header
/// `%PDF-`, which pdf-writer writes first (`Pdf::with_capacity`).  Nothing
/// is claimed of the warnings.
#[verifier::external_body]
fn compile_and_export(world: &MemWorld) -> (r: (Result<Vec<u8>, (bool, Vec<String>)>, Vec<String>))
    ensures
        typst_outcome(
            world.source_text(),
            first_files(file_views(world.readable_files()), world.readable_files().len() as int),
            outcome_view(r.0),
        ),
        r.0 matches Ok(b) ==> pdf_header(b@),
{
    let compiled = typst::compile::<PagedDocument>(world);
    let warnings: Vec<String> = compiled.warnings.iter().map(|w| w.message.to_string()).collect();
    let outcome = match compiled.output {
        Ok(document) => typst_pdf::pdf(&document, &typst_pdf::PdfOptions::default()).map_err(
            |errors| (false, errors.iter().map(|e| e.message.to_string()).collect()),
        ),
        Err(errors) => Err((true, errors.iter().map(|e| e.message.to_string()).collect())),
    };
    (outcome, warnings)
}

/// Why a rendering failed, with the report shown to the user.
#[derive(Debug)]
pub enum RenderError {
    /// The Typst source did not compile.
    Compile(String),
    /// The compiled document could not be exported as PDF.
    Export(String),
}

impl RenderError {
    /// The report of the failure.
    pub fn message(&self) -> (r: String)
        ensures
            r@ == match self {
                RenderError::Compile(m) => m@,
                RenderError::Export(m) => m@,
            },
    {
        match self {
            RenderError::Compile(m) => m.clone(),
            RenderError::Export(m) => m.clone(),
        }
    }
}

/// The hint appended to compilation errors that look like LaTeX math.
pub open spec fn latex_hint() -> Seq<char> {
    "\n\nHint: md2paper uses Typst math syntax, not LaTeX.\nLaTeX → Typst: \\int → integral, \\frac{a}{b} → a/b, \\nabla → nabla, \\infty → infinity, \\sqrt{x} → sqrt(x)"@
}

/// The report of a failed compilation: the error messages one per line,
/// with the LaTeX hint where a message speaks of an unknown variable or of
/// something not found.
pub open spec fn compile_report(messages: Seq<Seq<char>>) -> Seq<char> {
    let combined = join(messages, "\n"@);
    "Typst compilation failed:\n"@ + combined + (if contains(combined, "unknown variable"@)
        || contains(combined, "not found"@) {
        latex_hint()
    } else {
        seq![]
    })
}

/// The report of a failed export: the error messages one per line.
pub open spec fn export_report(messages: Seq<Seq<char>>) -> Seq<char> {
    "PDF export failed:\n"@ + join(messages, "\n"@)
}

/// The error for a compilation that failed with `messages`.
pub fn compile_failure(messages: &Vec<String>) -> (e: RenderError)
    ensures
        e matches RenderError::Compile(m) && m@ == compile_report(views(messages@)),
{
    let mut combined = String::new();
    push_joined(&mut combined, messages, "\n");
    let c = chars_of(combined.as_str());
    let hinted = contains_chars(&c, &chars_of("unknown variable")) || contains_chars(
        &c,
        &chars_of("not found"),
    );
    let mut report = String::new();
    report.append("Typst compilation failed:\n");
    report.append(combined.as_str());
    if hinted {
        report.append(
            "\n\nHint: md2paper uses Typst math syntax, not LaTeX.\nLaTeX → Typst: \\int → integral, \\frac{a}{b} → a/b, \\nabla → nabla, \\infty → infinity, \\sqrt{x} → sqrt(x)",
        );
    } else {
        assert(report@ + Seq::<char>::empty() =~= report@);
    }
    RenderError::Compile(report)
}

/// The error for an export that failed with `messages`.
pub fn export_failure(messages: &Vec<String>) -> (e: RenderError)
    ensures
        e matches RenderError::Export(m) && m@ == export_report(views(messages@)),
{
    let mut report = String::new();
    report.append("PDF export failed:\n");
    push_joined(&mut report, messages, "\n");
    RenderError::Export(report)
}

/// What a rendering ends with, given the outcome of Typst: the PDF bytes,
/// or the error reporting the step that failed.
pub open spec fn render_result(
    out: Result<Seq<u8>, (bool, Seq<Seq<char>>)>,
    r: Result<Vec<u8>, RenderError>,
) -> bool {
    match out {
        Ok(bytes) => r matches Ok(b) && b@ == bytes,
        Err((true, msgs)) => r matches Err(RenderError::Compile(m)) && m@ == compile_report(msgs),
        Err((false, msgs)) => r matches Err(RenderError::Export(m)) && m@ == export_report(msgs),
    }
}

/// Whether `r` is what rendering the Typst source `src` with the files
/// `files` can end with: the report of an outcome that Typst can give for
/// them, and PDF bytes with a PDF header.
pub open spec fn rendered(src: Seq<char>, files: Seq<(Seq<char>, Seq<u8>)>, r: Result<
    Vec<u8>,
    RenderError,
>) -> bool {
    &&& exists|out: Result<Seq<u8>, (bool, Seq<Seq<char>>)>|
        typst_outcome(src, first_files(files, files.len() as int), out) && #[trigger] render_result(
            out,
            r,
        )
    &&& (r matches Ok(b) ==> pdf_header(b@))
}

/// Compiles Typst markup to PDF bytes, with the messages of the warnings
/// of the compilation; the document can read the given files, each kept
/// under its path relative to the base directory (the first one under each
/// path).
pub fn render_with_warnings(typst_src: &str, files: Vec<(String, Vec<u8>)>) -> (r: (
    Result<Vec<u8>, RenderError>,
    Vec<String>,
))
    ensures
        rendered(typst_src@, file_views(files@), r.0),
{
    let world = MemWorld::new(typst_src, files);
    let (out, warnings) = compile_and_export(&world);
    let ghost o = outcome_view(out);
    let r = match out {
        Ok(bytes) => Ok(bytes),
        Err((true, messages)) => Err(compile_failure(&messages)),
        Err((false, messages)) => Err(export_failure(&messages)),
    };
    assert(render_result(o, r));
    (r, warnings)
}

/// Compiles Typst markup to PDF bytes; the document can read the given
/// files, each kept under its path relative to the base directory (the
/// first one under each path).
pub fn render(typst_src: &str, files: Vec<(String, Vec<u8>)>) -> (r: Result<Vec<u8>, RenderError>)
    ensures
        rendered(typst_src@, file_views(files@), r),
{
    let (r, _warnings) = render_with_warnings(typst_src, files);
    r
}

/// Renders Typst markup source to PDF bytes; the document can read no
/// files.
pub fn render_to_pdf(typst_src: &str) -> (r: Result<Vec<u8>, RenderError>)
    ensures
        rendered(typst_src@, seq![], r),
{
    let none: Vec<(String, Vec<u8>)> = Vec::new();
    assert(file_views(none@) =~= seq![]);
    render(typst_src, none)
}

/// Renders Typst markup source to PDF bytes; the document can read the
/// given files, each kept under its path relative to the base directory.
pub fn render_to_pdf_with_base(typst_src: &str, files: Vec<(String, Vec<u8>)>) -> (r: Result<
    Vec<u8>,
    RenderError,
>)
    ensures
        rendered(typst_src@, file_views(files@), r),
{
    render(typst_src, files)
}

} // verus!
