//! The spreadsheet writer of the `rust_xlsxwriter` crate, as this library
//! uses it: worksheets are filled cell by cell, given column widths and a
//! name, and gathered in a workbook that is saved to bytes.
//!
//! What a worksheet, a workbook and a format hold is given names below;
//! the contracts of the calls state how each call changes them.

use vstd::prelude::*;
use rust_xlsxwriter::{Color, Format, FormatBorder, Workbook, Worksheet, XlsxError};

verus! {

#[verifier::external_type_specification]
#[verifier::external_body]
pub struct ExWorkbook(Workbook);

#[verifier::external_type_specification]
#[verifier::external_body]
pub struct ExWorksheet(Worksheet);

#[verifier::external_type_specification]
#[verifier::external_body]
pub struct ExFormat(Format);

#[verifier::external_type_specification]
#[verifier::external_body]
pub struct ExXlsxError(XlsxError);

/// Rows of a worksheet are numbered below this limit.
pub open spec fn row_limit() -> int {
    1048576
}

/// Columns of a worksheet are numbered below this limit.
pub open spec fn column_limit() -> int {
    16384
}

/// A cell holds at most this many UTF-16 code units of text.
pub open spec fn text_limit() -> nat {
    32767
}

/// The content of a worksheet cell. A cell written with empty text is a
/// formatted blank cell; it is recorded here as the empty text.
pub enum CellContent {
    Text(Seq<char>),
    Number(u32),
}

/// What a format sets: bold font, a solid RGB background, a thin border
/// on all four sides.
pub struct FormatModel {
    pub bold: bool,
    pub background: Option<u32>,
    pub thin_border: bool,
}

/// A worksheet as its name, its cells (by row and column) with the format
/// of each, and the width of each column set, in character units.
pub struct SheetModel {
    pub name: Seq<char>,
    pub cells: Map<(u32, u16), (CellContent, FormatModel)>,
    pub widths: Map<u16, u32>,
}

/// The cells that a worksheet holds.
pub uninterp spec fn sheet_cells(ws: Worksheet) -> Map<(u32, u16), (CellContent, FormatModel)>;

/// The name of a worksheet.
pub uninterp spec fn sheet_name(ws: Worksheet) -> Seq<char>;

/// The column widths set on a worksheet, in character units.
pub uninterp spec fn sheet_column_widths(ws: Worksheet) -> Map<u16, u32>;

/// What a format sets.
pub uninterp spec fn format_model(f: Format) -> FormatModel;

/// The worksheets of a workbook, in order.
pub uninterp spec fn workbook_sheets(wb: Workbook) -> Seq<SheetModel>;

/// A worksheet as its model.
pub open spec fn sheet_model(ws: Worksheet) -> SheetModel {
    SheetModel { name: sheet_name(ws), cells: sheet_cells(ws), widths: sheet_column_widths(ws) }
}

/// A worksheet without cells.
pub open spec fn no_cells() -> Map<(u32, u16), (CellContent, FormatModel)> {
    Map::empty()
}

/// A worksheet without column widths.
pub open spec fn no_widths() -> Map<u16, u32> {
    Map::empty()
}

/// The number of UTF-16 code units that encode `s`.
pub open spec fn utf16_len(s: Seq<char>) -> nat
    decreases s.len(),
{
    if s.len() == 0 {
        0
    } else {
        utf16_len(s.drop_last()) + if s.last() > '\u{FFFF}' {
            2nat
        } else {
            1nat
        }
    }
}

/// A character that a worksheet name cannot hold.
pub open spec fn invalid_sheet_char(c: char) -> bool {
    c == '*' || c == '?' || c == ':' || c == '[' || c == ']' || c == '\\' || c == '/'
}

/// A name that a worksheet can take: not empty, at most 31 UTF-16 code
/// units, none of `*?:[]\/`, and no apostrophe at either end.
pub open spec fn valid_sheet_name(s: Seq<char>) -> bool {
    &&& s.len() > 0
    &&& utf16_len(s) <= 31
    &&& forall|i: int| 0 <= i < s.len() ==> !invalid_sheet_char(#[trigger] s[i])
    &&& s[0] != '\''
    &&& s.last() != '\''
}

/// `Workbook::new`: a workbook without worksheets.
#[verifier::external_body]
pub(crate) fn new_workbook() -> (wb: Workbook)
    ensures
        workbook_sheets(wb) == Seq::<SheetModel>::empty(),
{
    Workbook::new()
}

/// `Worksheet::new`: a worksheet without a name, cells or column widths.
#[verifier::external_body]
pub(crate) fn new_worksheet() -> (ws: Worksheet)
    ensures
        sheet_name(ws) == Seq::<char>::empty(),
        sheet_cells(ws) == no_cells(),
        sheet_column_widths(ws) == no_widths(),
{
    Worksheet::new()
}

/// `Worksheet::set_name`: succeeds exactly on a valid name, which the
/// worksheet then takes; cells and widths are untouched.
#[verifier::external_body]
pub(crate) fn set_sheet_name(ws: &mut Worksheet, name: &str) -> (r: Result<(), XlsxError>)
    ensures
        r is Ok <==> valid_sheet_name(name@),
        r is Ok ==> sheet_name(*final(ws)) == name@,
        r is Err ==> sheet_name(*final(ws)) == sheet_name(*old(ws)),
        sheet_cells(*final(ws)) == sheet_cells(*old(ws)),
        sheet_column_widths(*final(ws)) == sheet_column_widths(*old(ws)),
{
    ws.set_name(name).map(|_| ())
}

/// `Worksheet::write_with_format` with text: succeeds exactly when the cell
/// is inside the sheet and the text is within the cell limit; the cell then
/// holds the text with the format's settings.
#[verifier::external_body]
pub(crate) fn write_text(ws: &mut Worksheet, row: u32, col: u16, text: &str, format: &Format) -> (r:
    Result<(), XlsxError>)
    ensures
        r is Ok <==> (row < row_limit() && col < column_limit() && utf16_len(text@) <= text_limit()),
        r is Ok ==> sheet_cells(*final(ws)) == sheet_cells(*old(ws)).insert(
            (row, col),
            (CellContent::Text(text@), format_model(*format)),
        ),
        r is Err ==> sheet_cells(*final(ws)) == sheet_cells(*old(ws)),
        sheet_name(*final(ws)) == sheet_name(*old(ws)),
        sheet_column_widths(*final(ws)) == sheet_column_widths(*old(ws)),
{
    ws.write_with_format(row, col, text, format).map(|_| ())
}

/// `Worksheet::write_with_format` with a `u32`: succeeds exactly when the
/// cell is inside the sheet; the cell then holds the number with the
/// format's settings.
#[verifier::external_body]
pub(crate) fn write_number(ws: &mut Worksheet, row: u32, col: u16, number: u32, format: &Format) -> (r:
    Result<(), XlsxError>)
    ensures
        r is Ok <==> (row < row_limit() && col < column_limit()),
        r is Ok ==> sheet_cells(*final(ws)) == sheet_cells(*old(ws)).insert(
            (row, col),
            (CellContent::Number(number), format_model(*format)),
        ),
        r is Err ==> sheet_cells(*final(ws)) == sheet_cells(*old(ws)),
        sheet_name(*final(ws)) == sheet_name(*old(ws)),
        sheet_column_widths(*final(ws)) == sheet_column_widths(*old(ws)),
{
    ws.write_with_format(row, col, number, format).map(|_| ())
}

/// The widest column, in character units.
pub open spec fn max_column_width() -> u32 {
    255
}

/// `Worksheet::set_column_width` with a width of 1 to 255 character units:
/// succeeds exactly on a column inside the sheet, which then has that
/// width. The crate stores a width as `7 * width + 5` pixels and caps it at
/// 255 units, so within this range each width is kept as asked; a width of
/// zero hides the column instead and is left out.
#[verifier::external_body]
pub(crate) fn set_column_width(ws: &mut Worksheet, col: u16, width: u32) -> (r: Result<(), XlsxError>)
    requires
        0 < width <= max_column_width(),
    ensures
        r is Ok <==> col < column_limit(),
        r is Ok ==> sheet_column_widths(*final(ws)) == sheet_column_widths(*old(ws)).insert(col, width),
        r is Err ==> sheet_column_widths(*final(ws)) == sheet_column_widths(*old(ws)),
        sheet_name(*final(ws)) == sheet_name(*old(ws)),
        sheet_cells(*final(ws)) == sheet_cells(*old(ws)),
{
    ws.set_column_width(col, width).map(|_| ())
}

/// `Workbook::push_worksheet`: a worksheet that has a name becomes the
/// workbook's last worksheet. (One without a name is given a generated
/// name, which is left unsaid here.)
#[verifier::external_body]
pub(crate) fn push_worksheet(wb: &mut Workbook, ws: Worksheet)
    ensures
        sheet_name(ws).len() > 0 ==> workbook_sheets(*final(wb)) == workbook_sheets(*old(wb)).push(
            sheet_model(ws),
        ),
{
    wb.push_worksheet(ws)
}

/// That `bytes` are an xlsx file whose worksheets are `sheets`, in order.
pub uninterp spec fn xlsx_file_of(bytes: Seq<u8>, sheets: Seq<SheetModel>) -> bool;

/// `Workbook::save_to_buffer`: on success, and when the workbook has at
/// least one worksheet, the bytes of an xlsx file of the workbook's
/// worksheets as they stood before the call. A workbook without
/// worksheets is saved with a default one added, and nothing is stated of
/// its bytes. The bytes also carry the time of creation, so they are not
/// fixed beyond that relation; when saving fails is left unsaid.
#[verifier::external_body]
pub(crate) fn save_to_buffer(wb: &mut Workbook) -> (r: Result<Vec<u8>, XlsxError>)
    ensures
        workbook_sheets(*old(wb)).len() > 0 ==> (r matches Ok(b) ==> xlsx_file_of(
            b@,
            workbook_sheets(*old(wb)),
        )),
{
    wb.save_to_buffer()
}

/// `Format::new`: a format that sets nothing.
#[verifier::external_body]
pub(crate) fn new_format() -> (f: Format)
    ensures
        format_model(f) == (FormatModel { bold: false, background: None, thin_border: false }),
{
    Format::new()
}

/// `Format::set_bold`.
#[verifier::external_body]
pub(crate) fn format_bold(f: Format) -> (r: Format)
    ensures
        format_model(r) == (FormatModel { bold: true, ..format_model(f) }),
{
    f.set_bold()
}

/// `Format::set_background_color` with `Color::RGB(rgb)`: the background
/// is set when `rgb` is a valid colour (at most `0xFFFFFF`), else the
/// format is unchanged.
#[verifier::external_body]
pub(crate) fn format_background(f: Format, rgb: u32) -> (r: Format)
    ensures
        rgb <= 0xFFFFFF ==> format_model(r) == (FormatModel { background: Some(rgb), ..format_model(f) }),
        rgb > 0xFFFFFF ==> format_model(r) == format_model(f),
{
    f.set_background_color(Color::RGB(rgb))
}

/// `Format::set_border` with `FormatBorder::Thin`: a thin border on all
/// four sides.
#[verifier::external_body]
pub(crate) fn format_thin_border(f: Format) -> (r: Format)
    ensures
        format_model(r) == (FormatModel { thin_border: true, ..format_model(f) }),
{
    f.set_border(FormatBorder::Thin)
}

} // verus!
