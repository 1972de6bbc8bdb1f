//! The PDF file around the page content streams: a PDF 1.4 header, numbered objects
//! (catalog, page tree, the two built-in fonts, then a content stream and a page object
//! per page), a classic cross-reference table and the trailer.

use vstd::prelude::*;
use vstd::utf8::{encode_utf8, is_ascii_chars, is_ascii_chars_encode_utf8};
use crate::text::{dec, dec_padded, push_dec, push_dec_padded, push_dec_wide};

verus! {

pub const CATALOG_DICT: &'static str = "<< /Type /Catalog /Pages 2 0 R >>";
pub const FONT_REGULAR_DICT: &'static str = "<< /Type /Font /Subtype /Type1 /BaseFont /Helvetica /Encoding /WinAnsiEncoding >>";
pub const FONT_BOLD_DICT: &'static str = "<< /Type /Font /Subtype /Type1 /BaseFont /Helvetica-Bold /Encoding /WinAnsiEncoding >>";
pub const PAGE_DICT_HEAD: &'static str = "<< /Type /Page /Parent 2 0 R /MediaBox [0 0 842 595] /Resources << /Font << /F1 3 0 R /F2 4 0 R >> >> /Contents ";

/// `%PDF-1.4`, then a comment line (`%` and four bytes above 127) that marks the file
/// as binary.
pub open spec fn header_bytes() -> Seq<u8> {
    encode_utf8("%PDF-1.4\n%"@) + seq![0xE2u8, 0xE3u8, 0xCFu8, 0xD3u8] + encode_utf8("\n"@)
}

/// The reference to the page object of page `k` (counting from zero).
pub open spec fn kid_text(k: nat) -> Seq<char> {
    dec(6 + 2 * k) + " 0 R"@
}

pub open spec fn kids_text(n: nat) -> Seq<char>
    decreases n,
{
    if n == 0 {
        Seq::empty()
    } else if n == 1 {
        kid_text(0)
    } else {
        kids_text((n - 1) as nat) + " "@ + kid_text((n - 1) as nat)
    }
}

pub open spec fn pages_dict(n: nat) -> Seq<char> {
    "<< /Type /Pages /Kids [ "@ + kids_text(n) + " ] /Count "@ + dec(n) + " >>"@
}

/// A page's content stream object; its length counts the content's UTF-8 bytes.
pub open spec fn content_body(content: Seq<char>) -> Seq<char> {
    "<< /Length "@ + dec(encode_utf8(content).len()) + " >>\nstream\n"@ + content + "\nendstream"@
}

/// The page object of page `k`, whose content stream is object `5 + 2k`.
pub open spec fn page_body(k: nat) -> Seq<char> {
    PAGE_DICT_HEAD@ + dec(5 + 2 * k) + " 0 R >>"@
}

/// The bodies of objects 1, 2, ... in order.
pub open spec fn object_bodies(pages: Seq<Seq<char>>) -> Seq<Seq<char>> {
    seq![CATALOG_DICT@, pages_dict(pages.len()), FONT_REGULAR_DICT@, FONT_BOLD_DICT@] + Seq::new(
        2 * pages.len(),
        |i: int|
            if i % 2 == 0 {
                content_body(pages[i / 2])
            } else {
                page_body((i / 2) as nat)
            },
    )
}

pub open spec fn object_label(id: nat) -> Seq<char> {
    dec(id) + " 0 obj"@
}

pub open spec fn object_text(id: nat, body: Seq<char>) -> Seq<char> {
    object_label(id) + "\n"@ + body + "\nendobj\n"@
}

/// The first `n` objects, numbered from 1.
pub open spec fn objects_text(bodies: Seq<Seq<char>>, n: nat) -> Seq<char>
    decreases n,
{
    if n == 0 {
        Seq::empty()
    } else {
        objects_text(bodies, (n - 1) as nat) + object_text(n, bodies[n - 1])
    }
}

/// Where object `j + 1` starts in the file.
pub open spec fn object_offset(bodies: Seq<Seq<char>>, j: nat) -> nat {
    header_bytes().len() + encode_utf8(objects_text(bodies, j)).len()
}

/// The cross-reference entries of the first `n` objects.
pub open spec fn xref_entries(bodies: Seq<Seq<char>>, n: nat) -> Seq<char>
    decreases n,
{
    if n == 0 {
        Seq::empty()
    } else {
        xref_entries(bodies, (n - 1) as nat) + dec_padded(object_offset(bodies, (n - 1) as nat), 10) + " 00000 n \n"@
    }
}

pub open spec fn startxref_text(xref_at: nat) -> Seq<char> {
    "startxref\n"@ + dec(xref_at) + "\n%%EOF\n"@
}

pub open spec fn trailer_text(size: nat, xref_at: nat) -> Seq<char> {
    "trailer\n<< /Size "@ + dec(size) + " /Root 1 0 R >>\n"@ + startxref_text(xref_at)
}

pub open spec fn xref_text(bodies: Seq<Seq<char>>, xref_at: nat) -> Seq<char> {
    "xref"@ + ("\n0 "@ + dec(bodies.len() + 1) + "\n0000000000 65535 f \n"@ + xref_entries(bodies, bodies.len())
        + trailer_text(bodies.len() + 1, xref_at))
}

/// Where the cross-reference table starts.
pub open spec fn xref_offset(pages: Seq<Seq<char>>) -> nat {
    object_offset(object_bodies(pages), object_bodies(pages).len())
}

/// The complete file for the given page content streams.
pub open spec fn pdf_document(pages: Seq<Seq<char>>) -> Seq<u8> {
    let bodies = object_bodies(pages);
    header_bytes() + encode_utf8(objects_text(bodies, bodies.len()) + xref_text(bodies, xref_offset(pages)))
}

pub proof fn lemma_encode_concat(a: Seq<char>, b: Seq<char>)
    ensures
        encode_utf8(a + b) == encode_utf8(a) + encode_utf8(b),
    decreases a.len(),
{
    if a.len() == 0 {
        assert(a + b =~= b);
        assert(encode_utf8(a) =~= Seq::<u8>::empty());
        assert(encode_utf8(a) + encode_utf8(b) =~= encode_utf8(b));
    } else {
        lemma_encode_concat(a.drop_first(), b);
        assert((a + b).drop_first() =~= a.drop_first() + b);
        assert((a + b)[0] == a[0]);
    }
}

/// The text of the first `j` objects is a prefix of the text of the first `k`.
proof fn lemma_objects_prefix(bodies: Seq<Seq<char>>, j: nat, k: nat) -> (rest: Seq<char>)
    requires
        j <= k,
    ensures
        objects_text(bodies, k) == objects_text(bodies, j) + rest,
    decreases k - j,
{
    if j == k {
        assert(objects_text(bodies, k) =~= objects_text(bodies, j) + Seq::<char>::empty());
        Seq::empty()
    } else {
        let rest = lemma_objects_prefix(bodies, j, (k - 1) as nat);
        let more = rest + object_text(k, bodies[k - 1]);
        assert(objects_text(bodies, k) =~= objects_text(bodies, j) + more);
        more
    }
}

/// In the header followed by the objects and any tail, object `j + 1` starts at its offset.
#[verifier::spinoff_prover]
proof fn lemma_label_at_offset(bodies: Seq<Seq<char>>, j: nat, tail: Seq<char>)
    requires
        j < bodies.len(),
    ensures
        ({
            let doc = header_bytes() + encode_utf8(objects_text(bodies, bodies.len()) + tail);
            let off = object_offset(bodies, j) as int;
            let label = encode_utf8(object_label(j + 1));
            doc.subrange(off, off + label.len()) == label
        }),
{
    let n = bodies.len();
    let rest = lemma_objects_prefix(bodies, j + 1, n);
    let before = objects_text(bodies, j);
    let label = object_label(j + 1);
    let after = "\n"@ + bodies[j as int] + "\nendobj\n"@ + rest + tail;
    assert(objects_text(bodies, j + 1) == before + object_text(j + 1, bodies[j as int]));
    assert(objects_text(bodies, n) + tail =~= before + (label + after));
    lemma_encode_concat(before, label + after);
    lemma_encode_concat(label, after);
    let hb = header_bytes();
    let eb = encode_utf8(before);
    let el = encode_utf8(label);
    let ea = encode_utf8(after);
    let doc = hb + encode_utf8(objects_text(bodies, n) + tail);
    assert(doc == hb + (eb + (el + ea)));
    assert(doc =~= hb + eb + el + ea);
    let off = hb.len() + eb.len();
    assert(doc.subrange(off as int, off + el.len() as int) =~= el);
}

/// Each cross-reference entry points at its object: at the offset recorded for object
/// `j + 1` the file reads `j + 1 0 obj`, and the whole object (label, body, `endobj`)
/// stands there.
pub proof fn law_object_offsets_point_at_objects(pages: Seq<Seq<char>>, j: nat)
    requires
        j < object_bodies(pages).len(),
    ensures
        ({
            let off = object_offset(object_bodies(pages), j) as int;
            let label = encode_utf8(object_label(j + 1));
            pdf_document(pages).subrange(off, off + label.len()) == label
        }),
        ({
            let off = object_offset(object_bodies(pages), j) as int;
            let obj = encode_utf8(object_text(j + 1, object_bodies(pages)[j as int]));
            pdf_document(pages).subrange(off, off + obj.len()) == obj
        }),
{
    let bodies = object_bodies(pages);
    lemma_label_at_offset(bodies, j, xref_text(bodies, xref_offset(pages)));
    lemma_object_at_offset(bodies, j, xref_text(bodies, xref_offset(pages)));
}

/// In the header followed by the objects and any tail, object `j + 1` is written out
/// whole from its offset on.
#[verifier::spinoff_prover]
proof fn lemma_object_at_offset(bodies: Seq<Seq<char>>, j: nat, tail: Seq<char>)
    requires
        j < bodies.len(),
    ensures
        ({
            let doc = header_bytes() + encode_utf8(objects_text(bodies, bodies.len()) + tail);
            let off = object_offset(bodies, j) as int;
            let obj = encode_utf8(object_text(j + 1, bodies[j as int]));
            doc.subrange(off, off + obj.len()) == obj
        }),
{
    let n = bodies.len();
    let rest = lemma_objects_prefix(bodies, j + 1, n);
    let before = objects_text(bodies, j);
    let obj = object_text(j + 1, bodies[j as int]);
    let after = rest + tail;
    assert(objects_text(bodies, j + 1) == before + obj);
    assert(objects_text(bodies, n) + tail =~= before + (obj + after));
    lemma_encode_concat(before, obj + after);
    lemma_encode_concat(obj, after);
    let hb = header_bytes();
    let eb = encode_utf8(before);
    let eo = encode_utf8(obj);
    let ea = encode_utf8(after);
    let doc = hb + encode_utf8(objects_text(bodies, n) + tail);
    assert(doc == hb + (eb + (eo + ea)));
    assert(doc =~= hb + eb + eo + ea);
    let off = hb.len() + eb.len();
    assert(doc.subrange(off as int, off + eo.len() as int) =~= eo);
}

/// The objects of a file with `n` pages are objects 1 to `4 + 2n`. Object 2 is the page
/// tree, with `/Count n` and the page objects `6 + 2k` as kids; object `5 + 2k` is page
/// `k`'s content stream, whose `/Length` is the page's UTF-8 byte count (its character
/// count when the page is ASCII) and which holds the page verbatim; object `6 + 2k` is page
/// `k`'s page object, whose contents are object `5 + 2k`. The cross-reference table has
/// `5 + 2n` entries. (Each object stands whole at its recorded offset:
/// `law_object_offsets_point_at_objects`.)
pub proof fn law_document_objects(pages: Seq<Seq<char>>)
    ensures
        ({
            let n = pages.len();
            let bodies = object_bodies(pages);
            &&& bodies.len() == 4 + 2 * n
            &&& bodies[1] == "<< /Type /Pages /Kids [ "@ + kids_text(n) + " ] /Count "@ + dec(n) + " >>"@
            &&& forall|k: nat| k < n ==> #[trigger] kid_text(k) == dec(6 + 2 * k) + " 0 R"@
            &&& forall|k: int|
                0 <= k < n ==> #[trigger] bodies[4 + 2 * k] == "<< /Length "@ + dec(encode_utf8(pages[k]).len())
                    + " >>\nstream\n"@ + pages[k] + "\nendstream"@
            &&& forall|k: int|
                0 <= k < n ==> #[trigger] bodies[5 + 2 * k] == PAGE_DICT_HEAD@ + dec((5 + 2 * k) as nat) + " 0 R >>"@
            &&& forall|k: int|
                0 <= k < n && is_ascii_chars(pages[k]) ==> #[trigger] encode_utf8(pages[k]).len() == pages[k].len()
            &&& xref_text(bodies, xref_offset(pages)) == "xref"@ + "\n0 "@ + dec(5 + 2 * n) + "\n0000000000 65535 f \n"@
                + xref_entries(bodies, bodies.len()) + trailer_text(bodies.len() + 1, xref_offset(pages))
        }),
{
    let n = pages.len();
    let bodies = object_bodies(pages);
    assert forall|k: int| 0 <= k < n implies #[trigger] bodies[4 + 2 * k] == "<< /Length "@ + dec(
        encode_utf8(pages[k]).len(),
    ) + " >>\nstream\n"@ + pages[k] + "\nendstream"@ by {
        assert((2 * k) / 2 == k);
        assert(bodies[4 + 2 * k] == content_body(pages[(2 * k) / 2]));
    }
    assert forall|k: int| 0 <= k < n implies #[trigger] bodies[5 + 2 * k] == PAGE_DICT_HEAD@ + dec((5 + 2 * k) as nat)
        + " 0 R >>"@ by {
        assert((2 * k + 1) / 2 == k);
        assert(bodies[5 + 2 * k] == page_body(((2 * k + 1) / 2) as nat));
    }
    assert forall|k: int| 0 <= k < n && is_ascii_chars(pages[k]) implies #[trigger] encode_utf8(pages[k]).len()
        == pages[k].len() by {
        is_ascii_chars_encode_utf8(pages[k]);
    }
    assert(xref_text(bodies, xref_offset(pages)) =~= "xref"@ + "\n0 "@ + dec(5 + 2 * n) + "\n0000000000 65535 f \n"@
        + xref_entries(bodies, bodies.len()) + trailer_text(bodies.len() + 1, xref_offset(pages)));
}

/// The file starts with the PDF header, the byte offset after `startxref` points at the
/// `xref` keyword, and the file ends with that offset and `%%EOF`.
pub proof fn law_document_frame(pages: Seq<Seq<char>>)
    ensures
        ({
            let doc = pdf_document(pages);
            let at = xref_offset(pages) as int;
            let end = encode_utf8(startxref_text(xref_offset(pages)));
            &&& doc.subrange(0, encode_utf8("%PDF-1.4\n%"@).len() as int) == encode_utf8("%PDF-1.4\n%"@)
            &&& doc.subrange(at, at + encode_utf8("xref"@).len()) == encode_utf8("xref"@)
            &&& doc.subrange(doc.len() - end.len(), doc.len() as int) == end
        }),
{
    let bodies = object_bodies(pages);
    let n = bodies.len();
    let body = objects_text(bodies, n);
    let x = xref_offset(pages);
    let kw = "xref"@;
    let end_text = startxref_text(x);
    let middle = "\n0 "@ + dec(n + 1) + "\n0000000000 65535 f \n"@ + xref_entries(bodies, n) + "trailer\n<< /Size "@
        + dec(n + 1) + " /Root 1 0 R >>\n"@;
    assert(xref_text(bodies, x) =~= kw + (middle + end_text));
    assert(body + xref_text(bodies, x) =~= body + (kw + (middle + end_text)));
    lemma_encode_concat(body, kw + (middle + end_text));
    lemma_encode_concat(kw, middle + end_text);
    lemma_encode_concat(middle, end_text);
    let hb = header_bytes();
    let eb = encode_utf8(body);
    let ek = encode_utf8(kw);
    let em = encode_utf8(middle);
    let ee = encode_utf8(end_text);
    let doc = pdf_document(pages);
    assert(doc == hb + (eb + (ek + (em + ee))));
    assert(doc =~= hb + eb + ek + em + ee);
    assert(doc.subrange(x as int, x + ek.len() as int) =~= ek);
    assert(doc.subrange(doc.len() - ee.len(), doc.len() as int) =~= ee);
    let h1 = encode_utf8("%PDF-1.4\n%"@);
    assert(hb =~= h1 + (seq![0xE2u8, 0xE3u8, 0xCFu8, 0xD3u8] + encode_utf8("\n"@)));
    assert(doc.subrange(0, h1.len() as int) =~= h1);
}

/// Appends the UTF-8 bytes of `s`.
fn push_text(out: &mut Vec<u8>, s: &str)
    ensures
        final(out)@ == old(out)@ + encode_utf8(s@),
{
    let bytes = s.as_bytes();
    let mut i: usize = 0;
    while i < bytes.len()
        invariant
            i <= bytes@.len(),
            bytes@ == encode_utf8(s@),
            out@ == old(out)@ + bytes@.subrange(0, i as int),
        decreases bytes.len() - i,
    {
        out.push(bytes[i]);
        i += 1;
        assert(out@ =~= old(out)@ + bytes@.subrange(0, i as int));
    }
    assert(bytes@.subrange(0, i as int) =~= bytes@);
}

fn object_string(id: u128, body: &str) -> (s: String)
    ensures
        s@ == object_text(id as nat, body@),
{
    let mut s = String::new();
    push_dec_wide(&mut s, id);
    s.append(" 0 obj");
    s.append("\n");
    s.append(body);
    s.append("\nendobj\n");
    s
}

/// Appends object number `offsets.len() + 1` and records where it starts.
fn push_object(out: &mut Vec<u8>, offsets: &mut Vec<usize>, body: &str)
    ensures
        final(offsets)@.len() == old(offsets)@.len() + 1,
        forall|i: int| 0 <= i < old(offsets)@.len() ==> final(offsets)@[i] == old(offsets)@[i],
        final(offsets)@[old(offsets)@.len() as int] == old(out)@.len(),
        final(out)@ == old(out)@ + encode_utf8(object_text(old(offsets)@.len() + 1, body@)),
{
    let id = offsets.len() as u128 + 1;
    offsets.push(out.len());
    let text = object_string(id, body);
    push_text(out, text.as_str());
}

fn kids_string(n: usize) -> (s: String)
    ensures
        s@ == kids_text(n as nat),
{
    let mut s = String::new();
    let mut k: usize = 0;
    while k < n
        invariant
            k <= n,
            s@ == kids_text(k as nat),
        decreases n - k,
    {
        if k > 0 {
            s.append(" ");
        }
        push_dec_wide(&mut s, 6 + 2 * (k as u128));
        s.append(" 0 R");
        k += 1;
    }
    s
}

fn pages_dict_string(n: usize) -> (s: String)
    ensures
        s@ == pages_dict(n as nat),
{
    let mut s = String::from_str("<< /Type /Pages /Kids [ ");
    let kids = kids_string(n);
    s.append(kids.as_str());
    s.append(" ] /Count ");
    push_dec(&mut s, n as u64);
    s.append(" >>");
    s
}

fn content_string(content: &String) -> (s: String)
    ensures
        s@ == content_body(content@),
{
    let mut s = String::from_str("<< /Length ");
    push_dec(&mut s, content.as_str().as_bytes().len() as u64);
    s.append(" >>\nstream\n");
    s.append(content.as_str());
    s.append("\nendstream");
    s
}

fn page_string(k: usize) -> (s: String)
    ensures
        s@ == page_body(k as nat),
{
    let mut s = String::from_str(PAGE_DICT_HEAD);
    push_dec_wide(&mut s, 5 + 2 * (k as u128));
    s.append(" 0 R >>");
    s
}

/// Appends the content stream and the page object of page `k`.
fn push_page_pair(out: &mut Vec<u8>, offsets: &mut Vec<usize>, content: &String, k: usize, Ghost(bodies): Ghost<Seq<Seq<char>>>)
    requires
        old(offsets)@.len() == 4 + 2 * k,
        bodies.len() >= 4 + 2 * k + 2,
        bodies[4 + 2 * k] == content_body(content@),
        bodies[4 + 2 * k + 1] == page_body(k as nat),
        forall|j: int| 0 <= j < 4 + 2 * k ==> #[trigger] old(offsets)@[j] == object_offset(bodies, j as nat),
        old(out)@ == header_bytes() + encode_utf8(objects_text(bodies, (4 + 2 * k) as nat)),
    ensures
        final(offsets)@.len() == 4 + 2 * k + 2,
        forall|j: int| 0 <= j < 4 + 2 * k + 2 ==> #[trigger] final(offsets)@[j] == object_offset(bodies, j as nat),
        final(out)@ == header_bytes() + encode_utf8(objects_text(bodies, (4 + 2 * k + 2) as nat)),
{
    let ghost n0 = (4 + 2 * k) as nat;
    proof {
        lemma_encode_concat(objects_text(bodies, n0), object_text(n0 + 1, bodies[n0 as int]));
    }
    let c = content_string(content);
    push_object(out, offsets, c.as_str());
    proof {
        lemma_encode_concat(objects_text(bodies, n0 + 1), object_text(n0 + 2, bodies[n0 + 1int]));
    }
    let page = page_string(k);
    push_object(out, offsets, page.as_str());
}

/// Writes the complete PDF file for the given page content streams.
#[verifier::rlimit(50)]
#[verifier::spinoff_prover]
pub fn assemble_document(pages: &Vec<String>) -> (out: Vec<u8>)
    ensures
        out@ == pdf_document(pages@.map_values(|p: String| p@)),
{
    let ghost pv = pages@.map_values(|p: String| p@);
    let ghost bodies = object_bodies(pv);
    let mut out: Vec<u8> = Vec::new();
    push_text(&mut out, "%PDF-1.4\n%");
    out.push(0xE2u8);
    out.push(0xE3u8);
    out.push(0xCFu8);
    out.push(0xD3u8);
    push_text(&mut out, "\n");
    assert(out@ =~= header_bytes() + encode_utf8(objects_text(bodies, 0)));
    let mut offsets: Vec<usize> = Vec::new();
    let catalog = CATALOG_DICT;
    let pages_dict_text = pages_dict_string(pages.len());
    let ghost heads = seq![CATALOG_DICT@, pages_dict(pv.len()), FONT_REGULAR_DICT@, FONT_BOLD_DICT@];
    assert(bodies.subrange(0, 4) =~= heads);
    let mut head: Vec<&str> = Vec::new();
    head.push(catalog);
    head.push(pages_dict_text.as_str());
    head.push(FONT_REGULAR_DICT);
    head.push(FONT_BOLD_DICT);
    let mut h: usize = 0;
    while h < 4
        invariant
            h <= 4,
            head@.len() == 4,
            forall|i: int| 0 <= i < 4 ==> #[trigger] head@[i]@ == bodies[i],
            bodies.len() >= 4,
            offsets@.len() == h,
            forall|j: int| 0 <= j < h ==> #[trigger] offsets@[j] == object_offset(bodies, j as nat),
            out@ == header_bytes() + encode_utf8(objects_text(bodies, h as nat)),
        decreases 4 - h,
    {
        proof {
            lemma_encode_concat(objects_text(bodies, h as nat), object_text((h + 1) as nat, bodies[h as int]));
        }
        push_object(&mut out, &mut offsets, head[h]);
        h += 1;
    }
    let mut k: usize = 0;
    while k < pages.len()
        invariant
            k <= pages.len(),
            pv == pages@.map_values(|p: String| p@),
            bodies == object_bodies(pv),
            offsets@.len() == 4 + 2 * k,
            forall|j: int| 0 <= j < 4 + 2 * k ==> #[trigger] offsets@[j] == object_offset(bodies, j as nat),
            out@ == header_bytes() + encode_utf8(objects_text(bodies, (4 + 2 * k) as nat)),
        decreases pages.len() - k,
    {
        assert(bodies[4 + 2 * k] == content_body(pv[k as int]));
        assert(bodies[4 + 2 * k + 1] == page_body(k as nat));
        push_page_pair(&mut out, &mut offsets, &pages[k], k, Ghost(bodies));
        k += 1;
    }
    let ghost n = bodies.len();
    assert(offsets@.len() == n);
    let xref_at = out.len();
    let mut xref = String::from_str("xref");
    xref.append("\n0 ");
    push_dec_wide(&mut xref, offsets.len() as u128 + 1);
    xref.append("\n0000000000 65535 f \n");
    let ghost start = xref@;
    let mut j: usize = 0;
    while j < offsets.len()
        invariant
            j <= offsets@.len(),
            offsets@.len() == n,
            forall|i: int| 0 <= i < n ==> #[trigger] offsets@[i] == object_offset(bodies, i as nat),
            xref@ == start + xref_entries(bodies, j as nat),
        decreases offsets.len() - j,
    {
        push_dec_padded(&mut xref, offsets[j] as u64, 10);
        xref.append(" 00000 n \n");
        j += 1;
    }
    xref.append("trailer\n<< /Size ");
    push_dec_wide(&mut xref, offsets.len() as u128 + 1);
    xref.append(" /Root 1 0 R >>\n");
    xref.append("startxref\n");
    push_dec(&mut xref, xref_at as u64);
    xref.append("\n%%EOF\n");
    assert(xref@ =~= xref_text(bodies, xref_offset(pv)));
    proof {
        lemma_encode_concat(objects_text(bodies, n), xref@);
    }
    push_text(&mut out, xref.as_str());
    out
}

} // verus!
