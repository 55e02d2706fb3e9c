use vstd::prelude::*;
use crate::error::PDF2ImageError;
use crate::info::{extract_pdf_info, info_spec, InfoOutcome};
use crate::options::{cli_args_spec, decimal, push_flag, push_number, push_token, RenderOptions};
use crate::pages::{resolve_spec, Pages};

verus! {

#[verifier::external_type_specification]
#[verifier::external_body]
pub struct ExDynamicImage(image::DynamicImage);

/// A PDF document: its bytes, with the page count and encryption flag that `pdfinfo`
/// reported for them.
pub struct PDF {
    data: Vec<u8>,
    page_count: u32,
    encrypted: bool,
}

/// Whether `bytes` decode as a JPEG image.
pub uninterp spec fn jpeg_decodes(bytes: Seq<u8>) -> bool;

/// Relies on `image::load_from_memory_with_format` with `ImageFormat::Jpeg`: whether it
/// decodes depends on the bytes alone.
#[verifier::external_body]
fn load_jpeg(bytes: &[u8]) -> (r: Result<image::DynamicImage, image::ImageError>)
    ensures
        r is Ok <==> jpeg_decodes(bytes@),
{
    image::load_from_memory_with_format(bytes, image::ImageFormat::Jpeg)
}

/// The executable that renders with these options.
pub open spec fn tool_spec(options: RenderOptions) -> Seq<char> {
    if options.pdftocairo {
        "pdftocairo"@
    } else {
        "pdftoppm"@
    }
}

/// The tokens that every render call of a tool starts with: read the document from
/// standard input, write one JPEG file to standard output.
pub open spec fn base_args_spec(pdftocairo: bool) -> Seq<Seq<char>> {
    if pdftocairo {
        seq!["-"@, "-"@, "-jpeg"@, "-singlefile"@]
    } else {
        seq!["-jpeg"@, "-singlefile"@]
    }
}

/// The whole argument list that renders page `page` with `options`.
pub open spec fn page_args_spec(options: RenderOptions, page: u32) -> Seq<Seq<char>> {
    base_args_spec(options.pdftocairo) + seq![
        "-f"@,
        decimal(page as nat),
        "-l"@,
        decimal(page as nat),
    ] + cli_args_spec(options)
}

/// The path of a poppler executable: inside `poppler_path` where one is given, with the
/// `.exe` suffix on Windows.
pub open spec fn executable_path_spec(
    command: Seq<char>,
    poppler_path: Option<Seq<char>>,
    windows: bool,
) -> Seq<char> {
    match poppler_path {
        Some(dir) => if windows {
            dir + "\\"@ + command + ".exe"@
        } else {
            dir + "/"@ + command
        },
        None => if windows {
            command + ".exe"@
        } else {
            command
        },
    }
}

/// `rs[k]` is the first failure among `rs`.
pub open spec fn first_failure<T, E>(rs: Seq<Result<T, E>>, k: int) -> bool {
    &&& 0 <= k < rs.len()
    &&& rs[k] is Err
    &&& forall|j: int| 0 <= j < k ==> rs[j] is Ok
}

/// The values of `rs` in their order where all succeeded, else the first failure.
pub open spec fn collect_spec<T, E>(rs: Seq<Result<T, E>>) -> Result<Seq<T>, E> {
    if exists|k: int| first_failure(rs, k) {
        let k = choose|k: int| first_failure(rs, k);
        Err(rs[k]->Err_0)
    } else {
        Ok(rs.map_values(|r: Result<T, E>| r->Ok_0))
    }
}

/// The path of the poppler executable `command`, inside `poppler_path` where one is
/// given, with the `.exe` suffix where `windows` holds.
pub fn get_executable_path(command: &str, poppler_path: Option<&str>, windows: bool) -> (r:
    String)
    ensures
        r@ == executable_path_spec(
            command@,
            match poppler_path {
                Some(d) => Some(d@),
                None => None,
            },
            windows,
        ),
{
    match poppler_path {
        Some(dir) => {
            if windows {
                String::from_str(dir).concat("\\").concat(command).concat(".exe")
            } else {
                String::from_str(dir).concat("/").concat(command)
            }
        },
        None => {
            if windows {
                String::from_str(command).concat(".exe")
            } else {
                String::from_str(command)
            }
        },
    }
}

/// The name of the executable that renders with these options.
pub fn tool_name(options: &RenderOptions) -> (r: &'static str)
    ensures
        r@ == tool_spec(*options),
{
    if options.pdftocairo {
        "pdftocairo"
    } else {
        "pdftoppm"
    }
}

/// The argument list that renders page `page` with `options` from a document on
/// standard input; `cli` is the options' own tokens.
fn page_args(options: &RenderOptions, page: u32, cli: &Vec<String>) -> (r: Vec<String>)
    requires
        cli.deep_view() == cli_args_spec(*options),
    ensures
        r.deep_view() == page_args_spec(*options, page),
{
    let mut args: Vec<String> = Vec::new();
    assert(args.deep_view() =~= seq![]);
    if options.pdftocairo {
        push_flag(&mut args, "-");
        push_flag(&mut args, "-");
    }
    push_flag(&mut args, "-jpeg");
    push_flag(&mut args, "-singlefile");
    assert(args.deep_view() =~= base_args_spec(options.pdftocairo));
    push_number(&mut args, "-f", page);
    push_number(&mut args, "-l", page);
    let ghost head = args.deep_view();
    assert(head =~= base_args_spec(options.pdftocairo) + seq![
        "-f"@,
        decimal(page as nat),
        "-l"@,
        decimal(page as nat),
    ]);
    let mut i: usize = 0;
    while i < cli.len()
        invariant
            i <= cli@.len(),
            args.deep_view() =~= head + cli.deep_view().subrange(0, i as int),
        decreases cli.len() - i,
    {
        push_token(&mut args, String::from_str(cli[i].as_str()));
        i = i + 1;
    }
    assert(cli.deep_view().subrange(0, cli@.len() as int) =~= cli.deep_view());
    args
}

/// Decodes what a render call printed as a JPEG image.
pub fn decode_page(output: &[u8]) -> (r: Result<image::DynamicImage, PDF2ImageError>)
    ensures
        r is Ok <==> jpeg_decodes(output@),
        r is Err ==> r->Err_0 is ImageError,
{
    match load_jpeg(output) {
        Ok(img) => Ok(img),
        Err(e) => Err(PDF2ImageError::ImageError(e)),
    }
}

/// Joins the outcomes of the page renders: all values in their order where every render
/// succeeded, else the first failure in that order.
pub fn collect_rendered<T>(results: Vec<Result<T, PDF2ImageError>>) -> (r: Result<
    Vec<T>,
    PDF2ImageError,
>)
    ensures
        r is Ok ==> collect_spec(results@) == Ok::<Seq<T>, PDF2ImageError>(r->Ok_0@),
        r is Err ==> collect_spec(results@) == Err::<Seq<T>, PDF2ImageError>(r->Err_0),
{
    let ghost rs = results@;
    let n = results.len();
    let mut rest = results;
    let mut reversed: Vec<Result<T, PDF2ImageError>> = Vec::new();
    while rest.len() > 0
        invariant
            rest@.len() + reversed@.len() == n,
            n == rs.len(),
            rs == results@,
            rest@ == rs.subrange(0, rest@.len() as int),
            forall|j: int| 0 <= j < reversed@.len() ==> reversed@[j] == rs[n - 1 - j],
        decreases rest.len(),
    {
        let item = rest.pop().unwrap();
        reversed.push(item);
    }
    let mut values: Vec<T> = Vec::new();
    let mut i: usize = 0;
    while i < n
        invariant
            i <= n,
            n == rs.len(),
            rs == results@,
            reversed@.len() == n - i,
            forall|j: int| 0 <= j < reversed@.len() ==> reversed@[j] == rs[n - 1 - j],
            values@.len() == i,
            forall|j: int| 0 <= j < i ==> #[trigger] rs[j] is Ok,
            forall|j: int| 0 <= j < i ==> values@[j] == #[trigger] rs[j]->Ok_0,
        decreases n - i,
    {
        let item = reversed.pop().unwrap();
        let ghost it = item;
        assert(it == rs[i as int]);
        match item {
            Ok(v) => {
                values.push(v);
            },
            Err(e) => {
                assert(it is Err && it->Err_0 == e);
                assert(first_failure(rs, i as int));
                proof {
                    lemma_first_failure_wins(rs, i as int);
                }
                return Err(e);
            },
        }
        i = i + 1;
    }
    assert forall|k: int| !first_failure(rs, k) by {
        if 0 <= k < n {
            assert(rs[k] is Ok);
        }
    }
    assert(values@ =~= rs.map_values(|r: Result<T, PDF2ImageError>| r->Ok_0));
    Ok(values)
}

impl PDF {
    /// The document's bytes.
    pub closed spec fn data_spec(&self) -> Seq<u8> {
        self.data@
    }

    /// The number of pages that `pdfinfo` reported.
    pub closed spec fn page_count_spec(&self) -> u32 {
        self.page_count
    }

    /// Whether `pdfinfo` reported the document as encrypted.
    pub closed spec fn encrypted_spec(&self) -> bool {
        self.encrypted
    }

    /// A PDF from its bytes and the report that `pdfinfo` printed for them.
    pub fn from_bytes(data: Vec<u8>, info: &[u8]) -> (r: Result<Self, PDF2ImageError>)
        ensures
            match info_spec(info@) {
                InfoOutcome::Info(n, e) => r matches Ok(p) && p.page_count_spec() == n
                    && p.encrypted_spec() == e && p.data_spec() == data@,
                InfoOutcome::NotText => r matches Err(PDF2ImageError::Utf8(_)),
                InfoOutcome::NoPageCount => r matches Err(
                    PDF2ImageError::UnableToExtractPageCount,
                ),
                InfoOutcome::NoEncryptionStatus => r matches Err(
                    PDF2ImageError::UnableToExtractEncryptionStatus,
                ),
            },
    {
        let (page_count, encrypted) = extract_pdf_info(info)?;
        Ok(PDF { data, page_count, encrypted })
    }

    /// The number of pages in the PDF.
    pub fn page_count(&self) -> (r: u32)
        ensures
            r == self.page_count_spec(),
    {
        self.page_count
    }

    /// Whether the PDF is encrypted.
    pub fn is_encrypted(&self) -> (r: bool)
        ensures
            r == self.encrypted_spec(),
    {
        self.encrypted
    }

    /// The PDF's bytes, which every render call reads on its standard input.
    pub fn data(&self) -> (r: &[u8])
        ensures
            r@ == self.data_spec(),
    {
        self.data.as_slice()
    }

    /// The argument lists of the render calls for `pages`, one per resolved page and in
    /// the same order; the missing-password error, before any call, for an encrypted PDF
    /// rendered without a password.
    pub fn render_args(&self, pages: &Pages, options: &RenderOptions) -> (r: Result<
        Vec<Vec<String>>,
        PDF2ImageError,
    >)
        ensures
            (self.encrypted_spec() && options.password is None) <==> r is Err,
            r is Err ==> r->Err_0 is NoPasswordForEncryptedPDF,
            r matches Ok(jobs) ==> {
                let pages = resolve_spec(*pages, self.page_count_spec());
                &&& jobs@.len() == pages.len()
                &&& forall|i: int|
                    0 <= i < pages.len() ==> #[trigger] jobs@[i].deep_view() == page_args_spec(
                        *options,
                        pages[i],
                    )
            },
    {
        if self.encrypted && options.password.is_none() {
            return Err(PDF2ImageError::NoPasswordForEncryptedPDF);
        }
        let numbers = pages.resolve(self.page_count);
        let cli = options.to_cli_args();
        let mut jobs: Vec<Vec<String>> = Vec::new();
        let mut i: usize = 0;
        while i < numbers.len()
            invariant
                i <= numbers@.len(),
                numbers@ == resolve_spec(*pages, self.page_count),
                cli.deep_view() == cli_args_spec(*options),
                jobs@.len() == i,
                forall|j: int|
                    0 <= j < i ==> #[trigger] jobs@[j].deep_view() == page_args_spec(
                        *options,
                        numbers@[j],
                    ),
            decreases numbers.len() - i,
        {
            let args = page_args(options, numbers[i], &cli);
            jobs.push(args);
            i = i + 1;
        }
        Ok(jobs)
    }
}

/// Joined page renders keep the order of the pages: where the join succeeds, every render
/// succeeded and its `i`-th image is the `i`-th render's.
pub proof fn lemma_collect_keeps_order<T, E>(rs: Seq<Result<T, E>>)
    ensures
        collect_spec(rs) is Ok <==> forall|i: int| 0 <= i < rs.len() ==> rs[i] is Ok,
        collect_spec(rs) is Ok ==> {
            let v = collect_spec(rs)->Ok_0;
            &&& v.len() == rs.len()
            &&& forall|i: int| 0 <= i < rs.len() ==> v[i] == rs[i]->Ok_0
        },
{
    if forall|i: int| 0 <= i < rs.len() ==> rs[i] is Ok {
        assert(!exists|k: int| first_failure(rs, k));
    } else {
        let i = choose|i: int| 0 <= i < rs.len() && rs[i] is Err;
        lemma_some_failure_is_first(rs, i);
    }
}

proof fn lemma_some_failure_is_first<T, E>(rs: Seq<Result<T, E>>, i: int)
    requires
        0 <= i < rs.len(),
        rs[i] is Err,
    ensures
        exists|k: int| first_failure(rs, k),
    decreases i,
{
    if exists|j: int| 0 <= j < i && rs[j] is Err {
        let j = choose|j: int| 0 <= j < i && rs[j] is Err;
        lemma_some_failure_is_first(rs, j);
    } else {
        assert(first_failure(rs, i));
    }
}

/// When one page render of a batch fails and the others succeed, the join fails with that
/// render's error and yields no images.
pub proof fn lemma_single_failure_wins<T, E>(rs: Seq<Result<T, E>>, k: int)
    requires
        0 <= k < rs.len(),
        rs[k] is Err,
        forall|j: int| 0 <= j < rs.len() && j != k ==> rs[j] is Ok,
    ensures
        collect_spec(rs) == Err::<Seq<T>, E>(rs[k]->Err_0),
{
    assert(first_failure(rs, k));
    let c = choose|c: int| first_failure(rs, c);
    assert(c == k);
}

/// The join fails, with no images, as soon as any page render fails, and its error is that
/// of the first failed render in page order.
pub proof fn lemma_first_failure_wins<T, E>(rs: Seq<Result<T, E>>, k: int)
    requires
        first_failure(rs, k),
    ensures
        collect_spec(rs) == Err::<Seq<T>, E>(rs[k]->Err_0),
{
    let c = choose|c: int| first_failure(rs, c);
    if c < k {
        assert(rs[c] is Ok);
    } else if c > k {
        assert(rs[k] is Ok);
    }
}

} // verus!
