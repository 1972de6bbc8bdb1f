//! Every character the PDF writer emits after the file's header is ASCII: drawing
//! operators, numbers and escaped text on the pages, and the objects, cross-reference
//! table and trailer around them.

use vstd::prelude::*;
use vstd::utf8::{encode_utf8, is_ascii_chars, is_ascii_chars_encode_utf8};
use crate::pdf::{
    color_text, column_text, columns_text, ensure_space_spec, finish_page_spec, fill_rect_text, fixed1,
    font_text, footer_label, heading_spec, into_pages_spec, law_pdf_escape_is_printable, layout_start,
    line_spec, lines_spec, note_spec, paragraph_spec, pdf_escape, rows_spec, rule_text, size_text,
    spacer_spec, stamp_footer_spec, table_row_spec, table_spec, text_op_text, Font, LayoutView, PdfColor,
};
use crate::pdf_file::{
    content_body, header_bytes, kid_text, kids_text, object_bodies, object_label, object_text, objects_text,
    page_body, pages_dict, pdf_document, startxref_text, trailer_text, xref_entries, xref_offset, xref_text,
};
use crate::pdf_report::{
    paragraphs_spec, raw_section, registry_section, report_pages, runs_section, summary_section, title_section,
};
use crate::session::CaptureSession;
use crate::time::Timestamp;
use crate::text::{dec, dec_padded, digit_char, lemma_dec_digits, zeros};

verus! {

/// Joining ASCII texts gives ASCII text.
pub broadcast proof fn lemma_ascii_add(a: Seq<char>, b: Seq<char>)
    requires
        is_ascii_chars(a),
        is_ascii_chars(b),
    ensures
        #[trigger] is_ascii_chars(a + b),
{
    assert forall|i: int| 0 <= i < (a + b).len() implies '\0' <= #[trigger] (a + b)[i] <= '\u{7f}' by {
        if i < a.len() {
            assert((a + b)[i] == a[i]);
        } else {
            assert((a + b)[i] == b[i - a.len()]);
        }
    }
}

pub proof fn lemma_ascii_digit(d: nat)
    requires
        d < 10,
    ensures
        '0' <= digit_char(d) <= '9',
        is_ascii_chars(seq![digit_char(d)]),
{
}

pub proof fn lemma_ascii_dec(n: nat)
    ensures
        is_ascii_chars(dec(n)),
{
    lemma_dec_digits(n);
}

proof fn lemma_ascii_fixed1(v: int)
    ensures
        is_ascii_chars(fixed1(v)),
{
    broadcast use lemma_ascii_add;

    if v < 0 {
        lemma_ascii_dec(((-v) / 10) as nat);
        lemma_ascii_digit(((-v) % 10) as nat);
        assert(is_ascii_chars(seq!['-']));
        assert(is_ascii_chars(seq!['.', digit_char(((-v) % 10) as nat)]));
    } else {
        lemma_ascii_dec((v / 10) as nat);
        lemma_ascii_digit((v % 10) as nat);
        assert(is_ascii_chars(seq!['.', digit_char((v % 10) as nat)]));
    }
}

proof fn lemma_ascii_size(v: int)
    ensures
        is_ascii_chars(size_text(v)),
{
    broadcast use lemma_ascii_add;

    lemma_ascii_dec((v / 10) as nat);
    lemma_ascii_digit((v % 10) as nat);
    assert(is_ascii_chars(seq!['.', digit_char((v % 10) as nat)]));
}

proof fn lemma_ascii_color(c: PdfColor)
    ensures
        is_ascii_chars(color_text(c)),
{
    reveal_strlit("0.090 0.106 0.122");
    reveal_strlit("0.392 0.416 0.439");
    reveal_strlit("0.000 0.451 0.812");
    reveal_strlit("0.937 0.955 0.969");
    reveal_strlit("0.961 0.973 0.980");
    reveal_strlit("0.780 0.810 0.835");
}

proof fn lemma_ascii_font(f: Font)
    ensures
        is_ascii_chars(font_text(f)),
{
    reveal_strlit("F1");
    reveal_strlit("F2");
}

proof fn lemma_ascii_escape(s: Seq<char>)
    ensures
        is_ascii_chars(pdf_escape(s)),
{
    law_pdf_escape_is_printable(s);
}

pub proof fn lemma_ascii_text_op(x: int, y: int, font: Font, size: int, color: PdfColor, content: Seq<char>)
    ensures
        is_ascii_chars(text_op_text(x, y, font, size, color, content)),
{
    broadcast use lemma_ascii_add;

    lemma_ascii_color(color);
    lemma_ascii_font(font);
    lemma_ascii_size(size);
    lemma_ascii_fixed1(x);
    lemma_ascii_fixed1(y);
    lemma_ascii_escape(content);
    reveal_strlit(" rg BT /");
    reveal_strlit(" ");
    reveal_strlit(" Tf 1 0 0 1 ");
    reveal_strlit(" Tm (");
    reveal_strlit(") Tj ET\n");
}

proof fn lemma_ascii_fill_rect(x: int, y: int, w: int, h: int, color: PdfColor)
    ensures
        is_ascii_chars(fill_rect_text(x, y, w, h, color)),
{
    broadcast use lemma_ascii_add;

    lemma_ascii_color(color);
    lemma_ascii_fixed1(x);
    lemma_ascii_fixed1(y);
    lemma_ascii_fixed1(w);
    lemma_ascii_fixed1(h);
    reveal_strlit(" rg ");
    reveal_strlit(" ");
    reveal_strlit(" re f\n");
}

proof fn lemma_ascii_rule(x1: int, y: int, x2: int, color: PdfColor, width: int)
    ensures
        is_ascii_chars(rule_text(x1, y, x2, color, width)),
{
    lemma_ascii_color(color);
    lemma_ascii_fixed1(width);
    lemma_ascii_fixed1(x1);
    lemma_ascii_fixed1(y);
    lemma_ascii_fixed1(x2);
    reveal_strlit(" RG ");
    reveal_strlit(" w ");
    reveal_strlit(" ");
    reveal_strlit(" m ");
    reveal_strlit(" l S\n");
    let a = color_text(color) + " RG "@;
    lemma_ascii_add(color_text(color), " RG "@);
    lemma_ascii_add(a, fixed1(width));
    let b = a + fixed1(width);
    lemma_ascii_add(b, " w "@);
    let c = b + " w "@;
    lemma_ascii_add(c, fixed1(x1));
    let d = c + fixed1(x1);
    lemma_ascii_add(d, " "@);
    let e = d + " "@;
    lemma_ascii_add(e, fixed1(y));
    let f = e + fixed1(y);
    lemma_ascii_add(f, " m "@);
    let g = f + " m "@;
    lemma_ascii_add(g, fixed1(x2));
    let h = g + fixed1(x2);
    lemma_ascii_add(h, " "@);
    let k = h + " "@;
    lemma_ascii_add(k, fixed1(y));
    let l = k + fixed1(y);
    lemma_ascii_add(l, " l S\n"@);
}

/// A layout whose finished pages and current page are all ASCII.
pub open spec fn layout_ascii(st: LayoutView) -> bool {
    &&& is_ascii_chars(st.current)
    &&& forall|i: int| 0 <= i < st.pages.len() ==> is_ascii_chars(#[trigger] st.pages[i])
}

proof fn lemma_ascii_finish(st: LayoutView)
    requires
        layout_ascii(st),
    ensures
        layout_ascii(stamp_footer_spec(st)),
        layout_ascii(finish_page_spec(st)),
{
    broadcast use lemma_ascii_add;

    lemma_ascii_text_op(crate::pdf::MARGIN as int, 200, Font::Regular, 75, PdfColor::Muted, footer_label(st.pages.len() + 1));
    let s1 = stamp_footer_spec(st);
    let s2 = finish_page_spec(st);
    assert forall|i: int| 0 <= i < s2.pages.len() implies is_ascii_chars(#[trigger] s2.pages[i]) by {
        if i < s1.pages.len() {
            assert(s2.pages[i] == s1.pages[i]);
        }
    }
}

proof fn lemma_ascii_ensure(st: LayoutView, needed: int)
    requires
        layout_ascii(st),
    ensures
        layout_ascii(ensure_space_spec(st, needed)),
{
    lemma_ascii_finish(st);
}

proof fn lemma_ascii_heading(st: LayoutView, text: Seq<char>, size: int)
    requires
        layout_ascii(st),
    ensures
        layout_ascii(heading_spec(st, text, size)),
{
    broadcast use lemma_ascii_add;

    lemma_ascii_ensure(st, size + 200);
    let s1 = ensure_space_spec(st, size + 200);
    let y1 = s1.y - (size + 80);
    lemma_ascii_text_op(crate::pdf::MARGIN as int, y1, Font::Bold, size, PdfColor::Accent, text);
    lemma_ascii_rule(crate::pdf::MARGIN as int, y1 - 40, (crate::pdf::MARGIN + 460) as int, PdfColor::Accent, 16);
}

proof fn lemma_ascii_lines(st: LayoutView, lines: Seq<Seq<char>>, size: int, color: PdfColor)
    requires
        layout_ascii(st),
    ensures
        layout_ascii(lines_spec(st, lines, size, color)),
    decreases lines.len(),
{
    broadcast use lemma_ascii_add;

    if lines.len() > 0 {
        lemma_ascii_lines(st, lines.drop_last(), size, color);
        let s0 = lines_spec(st, lines.drop_last(), size, color);
        lemma_ascii_ensure(s0, size + 40);
        let s1 = ensure_space_spec(s0, size + 40);
        lemma_ascii_text_op(crate::pdf::MARGIN as int, s1.y - (size + 25), Font::Regular, size, color, lines.last());
        assert(layout_ascii(line_spec(s0, lines.last(), size, color)));
    }
}

pub proof fn lemma_ascii_paragraph(st: LayoutView, text: Seq<char>, size: int)
    requires
        layout_ascii(st),
    ensures
        layout_ascii(paragraph_spec(st, text, size)),
        layout_ascii(note_spec(st, text)),
        layout_ascii(spacer_spec(st, size)),
{
    lemma_ascii_lines(st, crate::pdf::wrap_lines(text, crate::pdf::max_chars_for(crate::pdf::CONTENT_WIDTH as int, size)), size, PdfColor::Text);
    lemma_ascii_lines(st, crate::pdf::wrap_lines(text, crate::pdf::max_chars_for(crate::pdf::CONTENT_WIDTH as int, crate::pdf::NOTE_SIZE as int)), crate::pdf::NOTE_SIZE as int, PdfColor::Muted);
}

proof fn lemma_ascii_column(lines: Seq<Seq<char>>, x: int, top: int, font: Font, color: PdfColor)
    ensures
        is_ascii_chars(column_text(lines, x, top, font, color)),
    decreases lines.len(),
{
    broadcast use lemma_ascii_add;

    if lines.len() > 0 {
        lemma_ascii_column(lines.drop_last(), x, top, font, color);
        lemma_ascii_text_op(x + 20, top - crate::pdf::BODY_LEADING * lines.len(), font, crate::pdf::BODY_SIZE as int, color, lines.last());
    }
}

proof fn lemma_ascii_columns(w: Seq<Seq<Seq<char>>>, widths: Seq<int>, top: int, font: Font, color: PdfColor)
    ensures
        is_ascii_chars(columns_text(w, widths, top, font, color)),
    decreases w.len(),
{
    broadcast use lemma_ascii_add;

    if w.len() > 0 {
        lemma_ascii_columns(w.drop_last(), widths, top, font, color);
        lemma_ascii_column(
            w.last(),
            crate::pdf::MARGIN + crate::pdf::sum_widths(widths.subrange(0, w.len() - 1)),
            top,
            font,
            color,
        );
    }
}

proof fn lemma_ascii_table_row(st: LayoutView, cells: Seq<Seq<char>>, widths: Seq<int>, header: bool, shaded: bool)
    requires
        layout_ascii(st),
    ensures
        layout_ascii(table_row_spec(st, cells, widths, header, shaded)),
{
    broadcast use lemma_ascii_add;

    let w = crate::pdf::wrapped_cells(cells, widths);
    let line_count: int = if crate::pdf::max_line_count(w) < 1 { 1 } else { crate::pdf::max_line_count(w) as int };
    let row_height = line_count * crate::pdf::BODY_LEADING + 30;
    lemma_ascii_ensure(st, row_height + 20);
    let s1 = ensure_space_spec(st, row_height + 20);
    let top = s1.y;
    let total = crate::pdf::sum_widths(widths);
    let m = crate::pdf::MARGIN as int;
    lemma_ascii_fill_rect(m, top - row_height, total, row_height, PdfColor::TableHeadBg);
    lemma_ascii_fill_rect(m, top - row_height, total, row_height, PdfColor::ZebraBg);
    assert(is_ascii_chars(Seq::<char>::empty()));
    let font = if header { Font::Bold } else { Font::Regular };
    let color = if header { PdfColor::Muted } else { PdfColor::Text };
    lemma_ascii_columns(w, widths, top, font, color);
    lemma_ascii_rule(m, top - row_height + 15, m + total, PdfColor::Rule, if header { 11 } else { 6 });
    let band = if header {
        fill_rect_text(m, top - row_height, total, row_height, PdfColor::TableHeadBg)
    } else if shaded {
        fill_rect_text(m, top - row_height, total, row_height, PdfColor::ZebraBg)
    } else {
        Seq::empty()
    };
    assert(is_ascii_chars(band));
    let r = table_row_spec(st, cells, widths, header, shaded);
    assert(r.pages == s1.pages);
    assert(is_ascii_chars(r.current));
}

proof fn lemma_ascii_rows(st: LayoutView, rows: Seq<Seq<Seq<char>>>, widths: Seq<int>)
    requires
        layout_ascii(st),
    ensures
        layout_ascii(rows_spec(st, rows, widths)),
    decreases rows.len(),
{
    if rows.len() > 0 {
        lemma_ascii_rows(st, rows.drop_last(), widths);
        lemma_ascii_table_row(rows_spec(st, rows.drop_last(), widths), rows.last(), widths, false, (rows.len() - 1) % 2 == 1);
    }
}

pub proof fn lemma_ascii_table(st: LayoutView, headers: Seq<Seq<char>>, widths: Seq<int>, rows: Seq<Seq<Seq<char>>>)
    requires
        layout_ascii(st),
    ensures
        layout_ascii(table_spec(st, headers, widths, rows)),
{
    lemma_ascii_table_row(st, headers, widths, true, false);
    lemma_ascii_rows(table_row_spec(st, headers, widths, true, false), rows, widths);
}

pub proof fn lemma_ascii_pages(st: LayoutView)
    requires
        layout_ascii(st),
    ensures
        forall|i: int| 0 <= i < into_pages_spec(st).len() ==> is_ascii_chars(#[trigger] into_pages_spec(st)[i]),
{
    lemma_ascii_finish(st);
    let s1 = stamp_footer_spec(st);
    if st.current.len() > 0 || st.pages.len() == 0 {
        assert forall|i: int| 0 <= i < into_pages_spec(st).len() implies is_ascii_chars(#[trigger] into_pages_spec(st)[i]) by {
            if i < s1.pages.len() {
                assert(into_pages_spec(st)[i] == s1.pages[i]);
            }
        }
    }
}

proof fn lemma_ascii_kids(n: nat)
    ensures
        is_ascii_chars(kids_text(n)),
    decreases n,
{
    broadcast use lemma_ascii_add;

    reveal_strlit(" 0 R");
    reveal_strlit(" ");
    if n >= 1 {
        lemma_ascii_dec(6 + 2 * (n - 1) as nat);
        assert(is_ascii_chars(kid_text((n - 1) as nat)));
        lemma_ascii_dec(6);
        assert(is_ascii_chars(kid_text(0)));
        if n > 1 {
            lemma_ascii_kids((n - 1) as nat);
        }
    }
}

proof fn lemma_ascii_bodies(pages: Seq<Seq<char>>)
    requires
        forall|i: int| 0 <= i < pages.len() ==> is_ascii_chars(#[trigger] pages[i]),
    ensures
        forall|i: int| 0 <= i < object_bodies(pages).len() ==> is_ascii_chars(#[trigger] object_bodies(pages)[i]),
{
    broadcast use lemma_ascii_add;

    reveal_strlit("<< /Type /Catalog /Pages 2 0 R >>");
    reveal_strlit("<< /Type /Font /Subtype /Type1 /BaseFont /Helvetica /Encoding /WinAnsiEncoding >>");
    reveal_strlit("<< /Type /Font /Subtype /Type1 /BaseFont /Helvetica-Bold /Encoding /WinAnsiEncoding >>");
    reveal_strlit("<< /Type /Page /Parent 2 0 R /MediaBox [0 0 842 595] /Resources << /Font << /F1 3 0 R /F2 4 0 R >> >> /Contents ");
    reveal_strlit("<< /Type /Pages /Kids [ ");
    reveal_strlit(" ] /Count ");
    reveal_strlit(" >>");
    reveal_strlit("<< /Length ");
    reveal_strlit(" >>\nstream\n");
    reveal_strlit("\nendstream");
    reveal_strlit(" 0 R >>");
    lemma_ascii_kids(pages.len());
    lemma_ascii_dec(pages.len());
    assert(is_ascii_chars(pages_dict(pages.len())));
    let b = object_bodies(pages);
    assert forall|i: int| 0 <= i < b.len() implies is_ascii_chars(#[trigger] b[i]) by {
        if i >= 4 {
            let j = i - 4;
            if j % 2 == 0 {
                assert(is_ascii_chars(pages[j / 2]));
                lemma_ascii_dec(encode_utf8(pages[j / 2]).len());
                assert(is_ascii_chars(content_body(pages[j / 2])));
            } else {
                lemma_ascii_dec((5 + 2 * (j / 2)) as nat);
                assert(is_ascii_chars(page_body((j / 2) as nat)));
            }
        }
    }
}

proof fn lemma_ascii_objects(bodies: Seq<Seq<char>>, n: nat)
    requires
        n <= bodies.len(),
        forall|i: int| 0 <= i < bodies.len() ==> is_ascii_chars(#[trigger] bodies[i]),
    ensures
        is_ascii_chars(objects_text(bodies, n)),
    decreases n,
{
    broadcast use lemma_ascii_add;

    reveal_strlit(" 0 obj");
    reveal_strlit("\n");
    reveal_strlit("\nendobj\n");
    if n > 0 {
        lemma_ascii_objects(bodies, (n - 1) as nat);
        lemma_ascii_dec(n);
        assert(is_ascii_chars(bodies[n - 1]));
        assert(is_ascii_chars(object_label(n)));
        assert(is_ascii_chars(object_text(n, bodies[n - 1])));
    }
}

proof fn lemma_ascii_xref_entries(bodies: Seq<Seq<char>>, n: nat)
    ensures
        is_ascii_chars(xref_entries(bodies, n)),
    decreases n,
{
    broadcast use lemma_ascii_add;

    reveal_strlit(" 00000 n \n");
    if n > 0 {
        lemma_ascii_xref_entries(bodies, (n - 1) as nat);
        let off = crate::pdf_file::object_offset(bodies, (n - 1) as nat);
        lemma_ascii_dec(off);
        let z = zeros((10 - dec(off).len()) as nat);
        assert(is_ascii_chars(z));
        assert(is_ascii_chars(dec_padded(off, 10)));
    }
}

proof fn lemma_ascii_xref(bodies: Seq<Seq<char>>, at: nat)
    ensures
        is_ascii_chars(xref_text(bodies, at)),
{
    broadcast use lemma_ascii_add;

    reveal_strlit("xref");
    reveal_strlit("\n0 ");
    reveal_strlit("\n0000000000 65535 f \n");
    reveal_strlit("trailer\n<< /Size ");
    reveal_strlit(" /Root 1 0 R >>\n");
    reveal_strlit("startxref\n");
    reveal_strlit("\n%%EOF\n");
    lemma_ascii_dec(bodies.len() + 1);
    lemma_ascii_dec(at);
    lemma_ascii_xref_entries(bodies, bodies.len());
    assert(is_ascii_chars(startxref_text(at)));
    assert(is_ascii_chars(trailer_text(bodies.len() + 1, at)));
}

/// The PDF file starts with its fifteen-byte header (`%PDF-1.4`, a newline, `%`, four bytes
/// above 127 and a newline); when every page's content stream is ASCII, every byte after
/// the header is below 128.
pub proof fn law_pdf_ascii_after_header(pages: Seq<Seq<char>>)
    requires
        forall|i: int| 0 <= i < pages.len() ==> is_ascii_chars(#[trigger] pages[i]),
    ensures
        header_bytes().len() == 15,
        pdf_document(pages).subrange(0, 15) == header_bytes(),
        forall|i: int| 15 <= i < pdf_document(pages).len() ==> #[trigger] pdf_document(pages)[i] < 128,
{
    broadcast use lemma_ascii_add;

    reveal_strlit("%PDF-1.4\n%");
    reveal_strlit("\n");
    is_ascii_chars_encode_utf8("%PDF-1.4\n%"@);
    is_ascii_chars_encode_utf8("\n"@);
    let bodies = object_bodies(pages);
    lemma_ascii_bodies(pages);
    lemma_ascii_objects(bodies, bodies.len());
    lemma_ascii_xref(bodies, xref_offset(pages));
    let rest = objects_text(bodies, bodies.len()) + xref_text(bodies, xref_offset(pages));
    is_ascii_chars_encode_utf8(rest);
    let doc = pdf_document(pages);
    assert(doc == header_bytes() + encode_utf8(rest));
    assert(doc.subrange(0, 15) =~= header_bytes());
    assert forall|i: int| 15 <= i < doc.len() implies #[trigger] doc[i] < 128 by {
        assert(doc[i] == encode_utf8(rest)[i - 15]);
        assert(rest[i - 15] as u8 == encode_utf8(rest)[i - 15]);
        assert('\0' <= rest[i - 15] <= '\u{7f}');
    }
}

proof fn lemma_ascii_paragraphs(st: LayoutView, lines: Seq<Seq<char>>, size: int)
    requires
        layout_ascii(st),
    ensures
        layout_ascii(paragraphs_spec(st, lines, size)),
    decreases lines.len(),
{
    if lines.len() > 0 {
        lemma_ascii_paragraphs(st, lines.drop_last(), size);
        lemma_ascii_paragraph(paragraphs_spec(st, lines.drop_last(), size), lines.last(), size);
    }
}

proof fn lemma_ascii_title(st: LayoutView, s: &CaptureSession, generated: Timestamp)
    requires
        layout_ascii(st),
    ensures
        layout_ascii(title_section(st, s, generated)),
{
    let h0 = heading_spec(st, "FindBT Bluetooth Report"@, 160);
    lemma_ascii_heading(st, "FindBT Bluetooth Report"@, 160);
    lemma_ascii_paragraph(h0, Seq::empty(), 20);
    lemma_ascii_paragraphs(spacer_spec(h0, 20), crate::pdf_report::meta_lines(s, generated), crate::pdf::META_SIZE as int);
}

proof fn lemma_ascii_runs(st: LayoutView, runs: Seq<crate::models::ScanPhaseRun>)
    requires
        layout_ascii(st),
    ensures
        layout_ascii(runs_section(st, runs)),
{
    let a1 = heading_spec(st, "Phase runs"@, 120);
    lemma_ascii_heading(st, "Phase runs"@, 120);
    lemma_ascii_paragraph(a1, crate::pdf_report::NOTE_PHASE_RUNS@, 0);
    let a2 = spacer_spec(note_spec(a1, crate::pdf_report::NOTE_PHASE_RUNS@), 40);
    lemma_ascii_table(
        a2,
        crate::pdf_report::run_headers(),
        crate::pdf_report::run_widths(),
        crate::pdf_report::non_empty(
            runs.map_values(|r: crate::models::ScanPhaseRun| crate::pdf_report::run_row(r)),
            "No phase runs recorded."@,
            5,
        ),
    );
}

proof fn lemma_ascii_summary(
    st: LayoutView,
    log: Seq<crate::registry::ObservationView>,
    rows: Seq<crate::registry::DeviceView>,
)
    requires
        layout_ascii(st),
    ensures
        layout_ascii(summary_section(st, log, rows)),
{
    let b1 = heading_spec(st, "Phase summary"@, 120);
    lemma_ascii_heading(st, "Phase summary"@, 120);
    let rows3 = seq![
        crate::pdf_report::summary_row(log, rows, crate::models::ScanPhase::Baseline),
        crate::pdf_report::summary_row(log, rows, crate::models::ScanPhase::Target),
        crate::pdf_report::summary_row(log, rows, crate::models::ScanPhase::Verification),
    ];
    lemma_ascii_table(b1, crate::pdf_report::summary_headers(), crate::pdf_report::summary_widths(), rows3);
    let b2 = table_spec(b1, crate::pdf_report::summary_headers(), crate::pdf_report::summary_widths(), rows3);
    lemma_ascii_paragraph(b2, crate::pdf_report::NOTE_NEWLY_SEEN@, 0);
}

proof fn lemma_ascii_registry(st: LayoutView, rows: Seq<crate::registry::DeviceView>)
    requires
        layout_ascii(st),
    ensures
        layout_ascii(registry_section(st, rows)),
{
    let c1 = heading_spec(st, "Device registry"@, 120);
    lemma_ascii_heading(st, "Device registry"@, 120);
    lemma_ascii_paragraph(c1, crate::pdf_report::NOTE_REGISTRY@, 0);
    let c2 = spacer_spec(note_spec(c1, crate::pdf_report::NOTE_REGISTRY@), 40);
    let reg_rows = crate::pdf_report::non_empty(
        rows.map_values(|d: crate::registry::DeviceView| crate::pdf_report::registry_row(d)),
        "No devices observed."@,
        11,
    );
    lemma_ascii_table(c2, crate::pdf_report::registry_headers(), crate::pdf_report::registry_widths(), reg_rows);
    let c3 = table_spec(c2, crate::pdf_report::registry_headers(), crate::pdf_report::registry_widths(), reg_rows);
    lemma_ascii_paragraph(c3, crate::pdf_report::NOTE_TAGGED@, 0);
}

proof fn lemma_ascii_raw(st: LayoutView, log: Seq<crate::registry::ObservationView>)
    requires
        layout_ascii(st),
    ensures
        layout_ascii(raw_section(st, log)),
{
    let d1 = heading_spec(st, "Raw audit log"@, 120);
    lemma_ascii_heading(st, "Raw audit log"@, 120);
    lemma_ascii_paragraph(d1, crate::pdf_report::NOTE_RAW_LOG@, 0);
    let d2 = spacer_spec(note_spec(d1, crate::pdf_report::NOTE_RAW_LOG@), 40);
    lemma_ascii_table(
        d2,
        crate::pdf_report::raw_headers(),
        crate::pdf_report::raw_widths(),
        crate::pdf_report::non_empty(
            log.map_values(|o: crate::registry::ObservationView| crate::pdf_report::raw_row(o)),
            "No raw observations recorded."@,
            9,
        ),
    );
}

/// Every page content stream of the report is ASCII, whatever the captured names hold.
pub proof fn lemma_report_pages_ascii(s: &CaptureSession, generated: Timestamp)
    ensures
        forall|i: int|
            0 <= i < report_pages(s, generated).len() ==> is_ascii_chars(#[trigger] report_pages(s, generated)[i]),
{
    let log = crate::report::raw_views(s.raw_log@);
    let rows = s.registry@;
    let st1 = title_section(layout_start(), s, generated);
    lemma_ascii_title(layout_start(), s, generated);
    let st2 = runs_section(st1, s.phase_runs@);
    lemma_ascii_runs(st1, s.phase_runs@);
    let st3 = summary_section(st2, log, rows);
    lemma_ascii_summary(st2, log, rows);
    let st4 = registry_section(st3, rows);
    lemma_ascii_registry(st3, rows);
    lemma_ascii_raw(st4, log);
    lemma_ascii_pages(raw_section(st4, log));
}

/// Whatever a session holds (captured names with non-ASCII characters among them), the
/// PDF report starts with the fifteen-byte header and every byte after it is below 128.
pub proof fn law_report_pdf_is_ascii_after_header(s: &CaptureSession, generated: Timestamp)
    ensures
        pdf_document(report_pages(s, generated)).subrange(0, 15) == header_bytes(),
        forall|i: int|
            15 <= i < pdf_document(report_pages(s, generated)).len() ==> #[trigger] pdf_document(
                report_pages(s, generated),
            )[i] < 128,
{
    lemma_report_pages_ascii(s, generated);
    law_pdf_ascii_after_header(report_pages(s, generated));
}

} // verus!
