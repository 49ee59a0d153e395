//! Extracting text from an uploaded file: the base64 payload of a data
//! URL is decoded and the bytes are routed to the matching decoder — PDF
//! text extraction or a spreadsheet read — whose cells are laid out as
//! tab-separated rows under per-sheet headings. The payload split, the
//! routing and the layout are decided and proved here. The PDF and
//! spreadsheet decoders themselves can panic on malformed bytes, which no
//! contract here could fence, so the caller runs them — under a caught
//! unwind — and hands spreadsheet data back to `excel_text`.

use vstd::prelude::*;

use base64::Engine;

use crate::text::{join_sep, join_strings, str_eq, str_views};

verus! {

/// The placeholder answer for office formats, before the format name.
pub const OFFICE_HEAD: &'static str = "[";

/// The placeholder answer for office formats, after the format name.
pub const OFFICE_TAIL: &'static str =
    " \u{d30c}\u{c77c}]\n\n\u{c774} \u{d30c}\u{c77c} \u{d615}\u{c2dd}\u{c758} \u{d14d}\u{c2a4}\u{d2b8} \u{cd94}\u{cd9c}\u{c740} \u{d604}\u{c7ac} \u{c9c0}\u{c6d0}\u{b418}\u{c9c0} \u{c54a}\u{c2b5}\u{b2c8}\u{b2e4}.\nPDF \u{b610}\u{b294} Excel \u{d30c}\u{c77c}\u{c744} \u{c0ac}\u{c6a9}\u{d558}\u{c2dc}\u{ac70}\u{b098}, \u{d14d}\u{c2a4}\u{d2b8}\u{b97c} \u{c9c1}\u{c811} \u{bcf5}\u{c0ac}\u{d558}\u{c5ec} \u{bd99}\u{c5ec}\u{b123}\u{ae30} \u{d574}\u{c8fc}\u{c138}\u{c694}.";

/// The placeholder answer for images.
pub const IMAGE_MSG: &'static str =
    "[\u{c774}\u{bbf8}\u{c9c0} \u{d30c}\u{c77c}]\n\n\u{c774}\u{bbf8}\u{c9c0}\u{c5d0}\u{c11c} \u{d14d}\u{c2a4}\u{d2b8}\u{b97c} \u{cd94}\u{cd9c}\u{d558}\u{b824}\u{ba74} OCR\u{c774} \u{d544}\u{c694}\u{d569}\u{b2c8}\u{b2e4}.\n\u{d604}\u{c7ac}\u{b294} \u{c774}\u{bbf8}\u{c9c0} \u{bbf8}\u{b9ac}\u{bcf4}\u{ae30}\u{b9cc} \u{c9c0}\u{c6d0}\u{b429}\u{b2c8}\u{b2e4}.";

/// What standard base64 decoding yields: bytes, or nothing for text that
/// is not valid base64. A function of the text alone.
pub uninterp spec fn b64_decoded(s: Seq<char>) -> Option<Seq<u8>>;

/// Relies on base64's standard engine: whether text decodes, and to which
/// bytes, depends on the text alone.
#[verifier::external_body]
fn b64_decode(data: &str) -> (r: Result<Vec<u8>, String>)
    ensures
        match r {
            Ok(bytes) => b64_decoded(data@) == Some(bytes@),
            Err(_) => b64_decoded(data@) is None,
        },
{
    base64::engine::general_purpose::STANDARD.decode(data).map_err(
        |e| format!("Failed to decode base64: {}", e),
    )
}

/// The cell views of each row.
pub open spec fn rows_views(rows: Seq<Vec<String>>) -> Seq<Seq<Seq<char>>> {
    Seq::new(rows.len(), |i: int| str_views(rows[i]@))
}

/// The name and cell views of each sheet.
pub open spec fn sheets_views(sheets: Seq<(String, Vec<Vec<String>>)>) -> Seq<
    (Seq<char>, Seq<Seq<Seq<char>>>),
> {
    Seq::new(sheets.len(), |i: int| (sheets[i].0@, rows_views(sheets[i].1@)))
}

/// A sheet's rows laid out: each row's cells joined with tabs, one row per
/// line.
pub open spec fn rows_text(rows: Seq<Seq<Seq<char>>>) -> Seq<char>
    decreases rows.len(),
{
    if rows.len() == 0 {
        Seq::empty()
    } else {
        join_sep(rows[0], "\t"@) + "\n"@ + rows_text(rows.skip(1))
    }
}

/// The whole workbook laid out: each sheet under a heading with its name,
/// its rows, and a closing blank line.
pub open spec fn workbook_text(sheets: Seq<(Seq<char>, Seq<Seq<Seq<char>>>)>) -> Seq<char>
    decreases sheets.len(),
{
    if sheets.len() == 0 {
        Seq::empty()
    } else {
        "## Sheet: "@ + sheets[0].0 + "\n\n"@ + rows_text(sheets[0].1) + "\n"@ + workbook_text(
            sheets.skip(1),
        )
    }
}

/// Lay out decoded sheets as text.
pub fn excel_text(sheets: &Vec<(String, Vec<Vec<String>>)>) -> (r: String)
    ensures
        r@ == workbook_text(sheets_views(sheets@)),
{
    let ghost sv = sheets_views(sheets@);
    let mut acc = String::new();
    let n = sheets.len();
    proof {
        assert(sv.skip(0) =~= sv);
    }
    for i in 0..n
        invariant
            sv == sheets_views(sheets@),
            n == sheets@.len(),
            sv.len() == n,
            workbook_text(sv) == acc@ + workbook_text(sv.skip(i as int)),
    {
        proof {
            assert(sv.skip(i as int)[0] == sv[i as int]);
            assert(sv[i as int] == (sheets@[i as int].0@, rows_views(sheets@[i as int].1@)));
            assert(sv.skip(i as int).skip(1) =~= sv.skip(i as int + 1));
        }
        let ghost acc0 = acc@;
        acc.append("## Sheet: ");
        acc.append(sheets[i].0.as_str());
        acc.append("\n\n");
        let rows = &sheets[i].1;
        let ghost rv = rows_views(rows@);
        let m = rows.len();
        let ghost acc1 = acc@;
        proof {
            assert(rv.skip(0) =~= rv);
            assert(acc1 + rows_text(rv.skip(0)) =~= acc1 + rows_text(rv));
        }
        for j in 0..m
            invariant
                rv == rows_views(rows@),
                m == rows@.len(),
                rv.len() == m,
                acc1 + rows_text(rv) == acc@ + rows_text(rv.skip(j as int)),
            decreases m - j,
        {
            proof {
                assert(rv.skip(j as int)[0] == rv[j as int]);
                assert(rv[j as int] == str_views(rows@[j as int]@));
                assert(rv.skip(j as int).skip(1) =~= rv.skip(j as int + 1));
            }
            let row_str = join_strings(&rows[j], "\t");
            let ghost acc_before = acc@;
            acc.append(row_str.as_str());
            acc.append("\n");
            proof {
                assert((acc_before + (join_sep(rv[j as int], "\t"@) + "\n"@)) + rows_text(
                    rv.skip(j as int + 1),
                ) =~= acc_before + ((join_sep(rv[j as int], "\t"@) + "\n"@) + rows_text(
                    rv.skip(j as int + 1),
                )));
                assert(acc@ =~= acc_before + (join_sep(rv[j as int], "\t"@) + "\n"@));
                assert(join_sep(rv[j as int], "\t"@) + "\n"@ + rows_text(rv.skip(j as int + 1))
                    =~= (join_sep(rv[j as int], "\t"@) + "\n"@) + rows_text(
                    rv.skip(j as int + 1),
                ));
            }
        }
        proof {
            assert(rv.skip(m as int) =~= Seq::<Seq<Seq<char>>>::empty());
            assert(acc@ + Seq::<char>::empty() =~= acc@);
        }
        let ghost acc2 = acc@;
        acc.append("\n");
        proof {
            assert(acc2 == acc1 + rows_text(rv));
            assert(acc1 =~= acc0 + ("## Sheet: "@ + sv[i as int].0 + "\n\n"@));
            assert(workbook_text(sv.skip(i as int)) =~= ("## Sheet: "@ + sv[i as int].0 + "\n\n"@)
                + rows_text(rv) + "\n"@ + workbook_text(sv.skip(i as int + 1)));
            assert(acc@ + workbook_text(sv.skip(i as int + 1)) =~= acc0 + workbook_text(
                sv.skip(i as int),
            ));
        }
    }
    proof {
        assert(sv.skip(n as int) =~= Seq::<(Seq<char>, Seq<Seq<Seq<char>>>)>::empty());
        assert(acc@ + Seq::<char>::empty() =~= acc@);
    }
    acc
}

/// The index of the first occurrence of the character at or after `from`,
/// or the length.
pub open spec fn idx_of(s: Seq<char>, c: char, from: int) -> int
    decreases s.len() - from,
{
    if from >= s.len() || from < 0 {
        s.len() as int
    } else if s[from] == c {
        from
    } else {
        idx_of(s, c, from + 1)
    }
}

proof fn lemma_idx_of_at(s: Seq<char>, c: char, from: int, k: int)
    requires
        0 <= from <= k <= s.len(),
        forall|j: int| from <= j < k ==> s[j] != c,
        k < s.len() ==> s[k] == c,
    ensures
        idx_of(s, c, from) == if k < s.len() {
            k
        } else {
            s.len() as int
        },
    decreases k - from,
{
    if from < k {
        lemma_idx_of_at(s, c, from + 1, k);
    }
}

/// The first occurrence of the character at or after `from`, or the
/// length.
fn find_char(s: &str, c: char, from: usize) -> (r: usize)
    requires
        from <= s@.len(),
    ensures
        r == idx_of(s@, c, from as int),
        from <= r <= s@.len(),
        r < s@.len() ==> s@[r as int] == c,
{
    let n = s.unicode_len();
    let mut i = from;
    while i < n && s.get_char(i) != c
        invariant
            n == s@.len(),
            from <= i <= n,
            forall|j: int| from <= j < i ==> s@[j] != c,
        decreases n - i,
    {
        i = i + 1;
    }
    proof {
        lemma_idx_of_at(s@, c, from as int, i as int);
    }
    i
}

/// The base64 payload of a data URL: the piece between the first comma
/// and the next one or the end; text without a comma is taken whole.
pub open spec fn b64_payload(s: Seq<char>) -> Seq<char> {
    let p = idx_of(s, ',', 0);
    if p == s.len() {
        s
    } else {
        s.subrange(p + 1, idx_of(s, ',', p + 1))
    }
}

/// The office-format placeholder, naming the format.
fn office_message(upper: &str) -> (r: String)
    ensures
        r@ == OFFICE_HEAD@ + upper@ + OFFICE_TAIL@,
{
    String::from_str(OFFICE_HEAD).concat(upper).concat(OFFICE_TAIL)
}

proof fn lemma_idx_of_bounds(s: Seq<char>, c: char, from: int)
    requires
        0 <= from <= s.len(),
    ensures
        from <= idx_of(s, c, from) <= s.len(),
    decreases s.len() - from,
{
    if from < s.len() && s[from] != c {
        lemma_idx_of_bounds(s, c, from + 1);
    }
}

/// Where an uploaded file's bytes go next. The PDF and spreadsheet
/// decoders run with the caller, which lays spreadsheet data out through
/// `excel_text`.
pub enum ExtractRoute {
    /// Extract the PDF text of these bytes.
    Pdf(Vec<u8>),
    /// Read these bytes as a modern workbook and lay its sheets out.
    Xlsx(Vec<u8>),
    /// Read these bytes as a legacy workbook and lay its sheets out.
    Xls(Vec<u8>),
    /// The answer needs no decoder.
    Done(String),
}

/// Decide what to do with an uploaded file, handed over as a base64 data
/// URL.
///
/// The payload is decoded, then routed on the declared type: the PDF and
/// spreadsheet bytes go to their decoders, office formats and images get
/// their placeholder, and anything else fails. A payload that does not
/// decode fails whatever the type.
pub fn extract_plan(file_data: &str, file_type: &str) -> (r: Result<ExtractRoute, String>)
    ensures
        b64_decoded(b64_payload(file_data@)) is None ==> r is Err,
        file_type@ == "pdf"@ ==> (match b64_decoded(b64_payload(file_data@)) {
            Option::Some(bytes) => r matches Ok(ExtractRoute::Pdf(b)) && b@ == bytes,
            Option::None => r is Err,
        }),
        file_type@ == "xlsx"@ ==> (match b64_decoded(b64_payload(file_data@)) {
            Option::Some(bytes) => r matches Ok(ExtractRoute::Xlsx(b)) && b@ == bytes,
            Option::None => r is Err,
        }),
        file_type@ == "xls"@ ==> (match b64_decoded(b64_payload(file_data@)) {
            Option::Some(bytes) => r matches Ok(ExtractRoute::Xls(b)) && b@ == bytes,
            Option::None => r is Err,
        }),
        (file_type@ == "doc"@ && b64_decoded(b64_payload(file_data@)) is Some) ==> (r matches Ok(
            ExtractRoute::Done(s),
        ) && s@ == OFFICE_HEAD@ + "DOC"@ + OFFICE_TAIL@),
        (file_type@ == "docx"@ && b64_decoded(b64_payload(file_data@)) is Some) ==> (r matches Ok(
            ExtractRoute::Done(s),
        ) && s@ == OFFICE_HEAD@ + "DOCX"@ + OFFICE_TAIL@),
        (file_type@ == "ppt"@ && b64_decoded(b64_payload(file_data@)) is Some) ==> (r matches Ok(
            ExtractRoute::Done(s),
        ) && s@ == OFFICE_HEAD@ + "PPT"@ + OFFICE_TAIL@),
        (file_type@ == "pptx"@ && b64_decoded(b64_payload(file_data@)) is Some) ==> (r matches Ok(
            ExtractRoute::Done(s),
        ) && s@ == OFFICE_HEAD@ + "PPTX"@ + OFFICE_TAIL@),
        (file_type@ == "image"@ && b64_decoded(b64_payload(file_data@)) is Some) ==> (r matches Ok(
            ExtractRoute::Done(s),
        ) && s@ == IMAGE_MSG@),
        (file_type@ != "pdf"@ && file_type@ != "xlsx"@ && file_type@ != "xls"@ && file_type@
            != "doc"@ && file_type@ != "docx"@ && file_type@ != "ppt"@ && file_type@ != "pptx"@
            && file_type@ != "image"@ && b64_decoded(b64_payload(file_data@)) is Some) ==> (
        r matches Err(e) && e@ == "Unsupported file type: "@ + file_type@),
{
    proof {
        reveal_strlit("pdf");
        reveal_strlit("xlsx");
        reveal_strlit("xls");
        reveal_strlit("doc");
        reveal_strlit("docx");
        reveal_strlit("ppt");
        reveal_strlit("pptx");
        reveal_strlit("image");
        assert("pdf"@.len() == 3);
        assert("xlsx"@.len() == 4);
        assert("xls"@.len() == 3);
        assert("doc"@.len() == 3);
        assert("docx"@.len() == 4);
        assert("ppt"@.len() == 3);
        assert("pptx"@.len() == 4);
        assert("image"@.len() == 5);
        assert("pdf"@[0] != "xls"@[0]);
        assert("pdf"@[0] != "doc"@[0]);
        assert("xls"@[0] != "doc"@[0]);
        assert("xls"@[0] != "ppt"@[0]);
        assert("doc"@[0] != "ppt"@[0]);
        assert("xlsx"@[0] != "docx"@[0]);
        assert("xlsx"@[0] != "pptx"@[0]);
        assert("docx"@[0] != "pptx"@[0]);
        assert("pdf"@[1] != "ppt"@[1]);
    }
    let n = file_data.unicode_len();
    let p = find_char(file_data, ',', 0);
    let data: &str = if p == n {
        file_data
    } else {
        proof {
            lemma_idx_of_bounds(file_data@, ',', p as int + 1);
        }
        let q = find_char(file_data, ',', p + 1);
        file_data.substring_char(p + 1, q)
    };
    proof {
        assert(data@ == b64_payload(file_data@));
    }
    let bytes = match b64_decode(data) {
        Ok(bytes) => bytes,
        Err(e) => {
            return Err(e);
        },
    };
    if str_eq(file_type, "pdf") {
        Ok(ExtractRoute::Pdf(bytes))
    } else if str_eq(file_type, "xlsx") {
        Ok(ExtractRoute::Xlsx(bytes))
    } else if str_eq(file_type, "xls") {
        Ok(ExtractRoute::Xls(bytes))
    } else if str_eq(file_type, "doc") {
        Ok(ExtractRoute::Done(office_message("DOC")))
    } else if str_eq(file_type, "docx") {
        Ok(ExtractRoute::Done(office_message("DOCX")))
    } else if str_eq(file_type, "ppt") {
        Ok(ExtractRoute::Done(office_message("PPT")))
    } else if str_eq(file_type, "pptx") {
        Ok(ExtractRoute::Done(office_message("PPTX")))
    } else if str_eq(file_type, "image") {
        Ok(ExtractRoute::Done(String::from_str(IMAGE_MSG)))
    } else {
        Err(String::from_str("Unsupported file type: ").concat(file_type))
    }
}

} // verus!
