//! The spreadsheet report of a node: a "Node Info" sheet with the node's
//! properties, labels and MIG devices, a "Pods" sheet with one row per pod
//! and a "Containers" sheet with one row per container.
//!
//! The report is first laid out as cells (`node_report`), then written with
//! the `rust_xlsxwriter` crate (`render_sheet`, `build_node_workbook`) and
//! saved to the bytes of an xlsx file (`generate_node_excel`).

use vstd::prelude::*;
use rust_xlsxwriter::{Format, Workbook, Worksheet};
use crate::model::{ContainerInfo, ContainerView, NodeInfo, NodeView, PodInfo, PodView, containers_in};
use crate::string_map::{Entry, StringMap};
use crate::text::{decimal, decimal_string, owned};
use crate::xlsx::{
    CellContent, FormatModel, SheetModel, column_limit, invalid_sheet_char, format_background, format_bold, format_model,
    format_thin_border, max_column_width, new_format, new_workbook, new_worksheet, push_worksheet, row_limit,
    save_to_buffer, set_column_width, set_sheet_name, sheet_cells, sheet_column_widths, sheet_model,
    sheet_name, text_limit, utf16_len, valid_sheet_name, workbook_sheets, write_number, write_text,
    xlsx_file_of,
};

verus! {

/// How a cell is formatted: a header cell (bold, light gray background,
/// thin border) or a data cell (thin border).
#[derive(Clone, Copy, PartialEq, Eq, Structural, Debug)]
pub enum CellStyle {
    Header,
    Data,
}

/// What a cell holds.
pub enum CellValue {
    Text(String),
    Number(u32),
}

/// A cell of a sheet: position, content and style.
pub struct SheetCell {
    pub row: u32,
    pub col: u16,
    pub value: CellValue,
    pub style: CellStyle,
}

/// The width of a column, in character units.
pub struct ColumnWidth {
    pub col: u16,
    pub width: u32,
}

/// A sheet as it is to be written: its name, its cells in the order in
/// which they are written, and its column widths.
pub struct SheetLayout {
    pub name: String,
    pub cells: Vec<SheetCell>,
    pub widths: Vec<ColumnWidth>,
}

/// Why a report could not be made.
#[derive(Clone, Copy, PartialEq, Eq, Structural, Debug)]
pub enum ExcelError {
    /// A cell or column lies outside the sheet.
    RowColumnLimit,
    /// A text is longer than a cell can hold.
    TextTooLong,
    /// A sheet name is not one a worksheet can take.
    SheetName,
    /// The workbook could not be saved.
    Save,
}

/// The mathematical value of a `SheetCell`.
pub struct SheetCellView {
    pub row: u32,
    pub col: u16,
    pub content: CellContent,
    pub style: CellStyle,
}

/// The mathematical value of a `SheetLayout`.
pub struct SheetLayoutView {
    pub name: Seq<char>,
    pub cells: Seq<SheetCellView>,
    pub widths: Seq<(u16, u32)>,
}

impl View for SheetCell {
    type V = SheetCellView;

    open spec fn view(&self) -> SheetCellView {
        SheetCellView {
            row: self.row,
            col: self.col,
            content: match self.value {
                CellValue::Text(t) => CellContent::Text(t@),
                CellValue::Number(n) => CellContent::Number(n),
            },
            style: self.style,
        }
    }
}

impl View for SheetLayout {
    type V = SheetLayoutView;

    open spec fn view(&self) -> SheetLayoutView {
        SheetLayoutView {
            name: self.name@,
            cells: self.cells@.map_values(|c: SheetCell| c@),
            widths: self.widths@.map_values(|w: ColumnWidth| (w.col, w.width)),
        }
    }
}

/// The format settings of a style.
pub open spec fn style_format(style: CellStyle) -> FormatModel {
    match style {
        CellStyle::Header => FormatModel { bold: true, background: Some(0xD3D3D3), thin_border: true },
        CellStyle::Data => FormatModel { bold: false, background: None, thin_border: true },
    }
}

/// The cells of a sheet after writing `cells` in order (a later cell at the
/// same place replaces an earlier one).
pub open spec fn written_cells(cells: Seq<SheetCellView>) -> Map<(u32, u16), (CellContent, FormatModel)>
    decreases cells.len(),
{
    if cells.len() == 0 {
        Map::empty()
    } else {
        let c = cells.last();
        written_cells(cells.drop_last()).insert((c.row, c.col), (c.content, style_format(c.style)))
    }
}

/// The column widths after setting `widths` in order.
pub open spec fn written_widths(widths: Seq<(u16, u32)>) -> Map<u16, u32>
    decreases widths.len(),
{
    if widths.len() == 0 {
        Map::empty()
    } else {
        written_widths(widths.drop_last()).insert(widths.last().0, widths.last().1)
    }
}

/// The worksheet that a layout describes.
pub open spec fn layout_sheet(l: SheetLayoutView) -> SheetModel {
    SheetModel { name: l.name, cells: written_cells(l.cells), widths: written_widths(l.widths) }
}

/// Why a cell cannot be written, if it cannot.
pub open spec fn cell_error(c: SheetCellView) -> Option<ExcelError> {
    if c.row >= row_limit() || c.col >= column_limit() {
        Some(ExcelError::RowColumnLimit)
    } else {
        match c.content {
            CellContent::Text(t) => if utf16_len(t) > text_limit() {
                Some(ExcelError::TextTooLong)
            } else {
                None
            },
            CellContent::Number(_) => None,
        }
    }
}

/// The error of the first cell that cannot be written, if any.
pub open spec fn first_cell_error(cells: Seq<SheetCellView>) -> Option<ExcelError>
    decreases cells.len(),
{
    if cells.len() == 0 {
        None
    } else if cell_error(cells[0]) is Some {
        cell_error(cells[0])
    } else {
        first_cell_error(cells.drop_first())
    }
}

/// The error of the first column width that cannot be set, if any.
pub open spec fn first_width_error(widths: Seq<(u16, u32)>) -> Option<ExcelError>
    decreases widths.len(),
{
    if widths.len() == 0 {
        None
    } else if widths[0].0 >= column_limit() {
        Some(ExcelError::RowColumnLimit)
    } else {
        first_width_error(widths.drop_first())
    }
}

/// Why a layout cannot be written, if it cannot: the name is set first,
/// then the cells are written, then the widths are set.
pub open spec fn sheet_error(l: SheetLayoutView) -> Option<ExcelError> {
    if !valid_sheet_name(l.name) {
        Some(ExcelError::SheetName)
    } else if first_cell_error(l.cells) is Some {
        first_cell_error(l.cells)
    } else {
        first_width_error(l.widths)
    }
}

/// Why a sequence of layouts cannot be written, if it cannot: the error of
/// the first sheet that fails.
pub open spec fn report_error(sheets: Seq<SheetLayoutView>) -> Option<ExcelError>
    decreases sheets.len(),
{
    if sheets.len() == 0 {
        None
    } else if sheet_error(sheets[0]) is Some {
        sheet_error(sheets[0])
    } else {
        report_error(sheets.drop_first())
    }
}

proof fn lemma_first_cell_error_skip(cells: Seq<SheetCellView>, i: int)
    requires
        0 <= i <= cells.len(),
        forall|j: int| 0 <= j < i ==> cell_error(#[trigger] cells[j]) is None,
    ensures
        first_cell_error(cells) == first_cell_error(cells.skip(i)),
    decreases i,
{
    if i > 0 {
        let t = cells.drop_first();
        assert forall|j: int| 0 <= j < i - 1 implies cell_error(#[trigger] t[j]) is None by {
            assert(t[j] == cells[j + 1]);
        }
        lemma_first_cell_error_skip(t, i - 1);
        assert(t.skip(i - 1) =~= cells.skip(i));
    } else {
        assert(cells.skip(0) =~= cells);
    }
}

proof fn lemma_first_width_error_skip(widths: Seq<(u16, u32)>, i: int)
    requires
        0 <= i <= widths.len(),
        forall|j: int| 0 <= j < i ==> (#[trigger] widths[j]).0 < column_limit(),
    ensures
        first_width_error(widths) == first_width_error(widths.skip(i)),
    decreases i,
{
    if i > 0 {
        let t = widths.drop_first();
        assert forall|j: int| 0 <= j < i - 1 implies (#[trigger] t[j]).0 < column_limit() by {
            assert(t[j] == widths[j + 1]);
        }
        lemma_first_width_error_skip(t, i - 1);
        assert(t.skip(i - 1) =~= widths.skip(i));
    } else {
        assert(widths.skip(0) =~= widths);
    }
}

/// The format of header cells.
pub fn header_format() -> (f: Format)
    ensures
        format_model(f) == style_format(CellStyle::Header),
{
    format_thin_border(format_background(format_bold(new_format()), 0xD3D3D3))
}

/// The format of data cells.
pub fn data_format() -> (f: Format)
    ensures
        format_model(f) == style_format(CellStyle::Data),
{
    format_thin_border(new_format())
}

/// Writes a layout to a new worksheet: the name first, then the cells in
/// order, then the column widths. Fails with the error of the first step
/// that cannot be done.
pub fn render_sheet(layout: &SheetLayout, header: &Format, data: &Format) -> (r: Result<Worksheet, ExcelError>)
    requires
        format_model(*header) == style_format(CellStyle::Header),
        format_model(*data) == style_format(CellStyle::Data),
        forall|i: int|
            0 <= i < layout.widths@.len() ==> 0 < (#[trigger] layout.widths@[i]).width <= max_column_width(),
    ensures
        r is Ok <==> sheet_error(layout@) is None,
        match r {
            Ok(ws) => sheet_model(ws) == layout_sheet(layout@),
            Err(e) => sheet_error(layout@) == Some(e),
        },
{
    let ghost cv = layout@.cells;
    let ghost wv = layout@.widths;
    let mut ws = new_worksheet();
    match set_sheet_name(&mut ws, layout.name.as_str()) {
        Ok(()) => {},
        Err(_) => {
            return Err(ExcelError::SheetName);
        },
    }
    let n = layout.cells.len();
    let mut i: usize = 0;
    assert(cv.take(0) =~= Seq::<SheetCellView>::empty());
    while i < n
        invariant
            i <= n,
            n == cv.len(),
            cv == layout@.cells,
            valid_sheet_name(layout@.name),
            sheet_name(ws) == layout@.name,
            sheet_cells(ws) == written_cells(cv.take(i as int)),
            sheet_column_widths(ws) == Map::<u16, u32>::empty(),
            format_model(*header) == style_format(CellStyle::Header),
            format_model(*data) == style_format(CellStyle::Data),
            forall|j: int| 0 <= j < i ==> cell_error(#[trigger] cv[j]) is None,
        decreases n - i,
    {
        let cell = &layout.cells[i];
        assert(cv[i as int] == cell@);
        let fmt = match cell.style {
            CellStyle::Header => header,
            CellStyle::Data => data,
        };
        let written = match &cell.value {
            CellValue::Text(t) => write_text(&mut ws, cell.row, cell.col, t.as_str(), fmt),
            CellValue::Number(x) => write_number(&mut ws, cell.row, cell.col, *x, fmt),
        };
        if written.is_err() {
            proof {
                lemma_first_cell_error_skip(cv, i as int);
            }
            if cell.row >= 1048576 || cell.col >= 16384 {
                return Err(ExcelError::RowColumnLimit);
            } else {
                return Err(ExcelError::TextTooLong);
            }
        }
        assert(cv.take(i + 1).drop_last() =~= cv.take(i as int));
        i = i + 1;
    }
    proof {
        lemma_first_cell_error_skip(cv, n as int);
        assert(cv.skip(n as int) =~= Seq::<SheetCellView>::empty());
        assert(cv.take(n as int) =~= cv);
    }
    let m = layout.widths.len();
    let mut k: usize = 0;
    assert(wv.take(0) =~= Seq::<(u16, u32)>::empty());
    while k < m
        invariant
            k <= m,
            m == wv.len(),
            wv == layout@.widths,
            forall|j: int|
                0 <= j < layout.widths@.len() ==> 0 < (#[trigger] layout.widths@[j]).width
                    <= max_column_width(),
            sheet_name(ws) == layout@.name,
            sheet_cells(ws) == written_cells(cv),
            valid_sheet_name(layout@.name),
            first_cell_error(layout@.cells) is None,
            sheet_column_widths(ws) == written_widths(wv.take(k as int)),
            forall|j: int| 0 <= j < k ==> (#[trigger] wv[j]).0 < column_limit(),
        decreases m - k,
    {
        let w = &layout.widths[k];
        assert(wv[k as int] == (w.col, w.width));
        assert(layout.widths@[k as int] == *w);
        if set_column_width(&mut ws, w.col, w.width).is_err() {
            proof {
                lemma_first_width_error_skip(wv, k as int);
                assert(wv.skip(k as int)[0] == wv[k as int]);
            }
            return Err(ExcelError::RowColumnLimit);
        }
        assert(wv.take(k + 1).drop_last() =~= wv.take(k as int));
        k = k + 1;
    }
    proof {
        lemma_first_width_error_skip(wv, m as int);
        assert(wv.skip(m as int) =~= Seq::<(u16, u32)>::empty());
        assert(wv.take(m as int) =~= wv);
    }
    Ok(ws)
}

/// A text cell.
pub open spec fn text_cell(row: u32, col: u16, t: Seq<char>, style: CellStyle) -> SheetCellView {
    SheetCellView { row, col, content: CellContent::Text(t), style }
}

/// Row `x`, held at `u32::MAX` beyond it (such rows are past the sheet's
/// last row, so writing them fails as writing row 1048576 does).
pub open spec fn clamp_row(x: int) -> u32 {
    if x < u32::MAX {
        x as u32
    } else {
        u32::MAX
    }
}

/// One row per map entry, key in column 0 and value in column 1, from
/// row `start` on.
pub open spec fn entry_cells(entries: Seq<Entry>, start: int) -> Seq<SheetCellView>
    decreases entries.len(),
{
    if entries.len() == 0 {
        Seq::empty()
    } else {
        let row = clamp_row(start + entries.len() - 1);
        entry_cells(entries.drop_last(), start).push(
            text_cell(row, 0, entries.last().0, CellStyle::Data),
        ).push(text_cell(row, 1, entries.last().1, CellStyle::Data))
    }
}

/// The header row and the eleven property rows of the "Node Info" sheet.
pub open spec fn node_property_cells(n: NodeView) -> Seq<SheetCellView> {
        Seq::<SheetCellView>::empty()
            .push(text_cell(0, 0, "항목"@, CellStyle::Header))
            .push(text_cell(0, 1, "값"@, CellStyle::Header))
            .push(text_cell(1, 0, "노드 이름"@, CellStyle::Data))
            .push(text_cell(1, 1, n.name, CellStyle::Data))
            .push(text_cell(2, 0, "클러스터"@, CellStyle::Data))
            .push(text_cell(2, 1, n.cluster_name, CellStyle::Data))
            .push(text_cell(3, 0, "OS 이미지"@, CellStyle::Data))
            .push(text_cell(3, 1, n.os_image, CellStyle::Data))
            .push(text_cell(4, 0, "Kubelet 버전"@, CellStyle::Data))
            .push(text_cell(4, 1, n.kubelet_version, CellStyle::Data))
            .push(text_cell(5, 0, "아키텍처"@, CellStyle::Data))
            .push(text_cell(5, 1, n.architecture, CellStyle::Data))
            .push(text_cell(6, 0, "CPU 용량"@, CellStyle::Data))
            .push(text_cell(6, 1, n.capacity_cpu, CellStyle::Data))
            .push(text_cell(7, 0, "메모리 용량"@, CellStyle::Data))
            .push(text_cell(7, 1, n.capacity_memory, CellStyle::Data))
            .push(text_cell(8, 0, "GPU 모델"@, CellStyle::Data))
            .push(text_cell(8, 1, n.gpu_model, CellStyle::Data))
            .push(text_cell(9, 0, "GPU 개수"@, CellStyle::Data))
            .push(text_cell(9, 1, n.gpu_count, CellStyle::Data))
            .push(text_cell(10, 0, "Pod 수"@, CellStyle::Data))
            .push(text_cell(10, 1, decimal(n.pod_count), CellStyle::Data))
            .push(text_cell(11, 0, "Container 수"@, CellStyle::Data))
            .push(text_cell(11, 1, decimal(n.container_count), CellStyle::Data))
}

/// The row after the properties and labels of the "Node Info" sheet.
pub open spec fn labels_end(n: NodeView) -> int {
    if n.labels.len() == 0 {
        12
    } else {
        14 + n.labels.len() as int
    }
}

/// The label section: a header row at row 13, then one row per label.
pub open spec fn label_section(n: NodeView) -> Seq<SheetCellView> {
    if n.labels.len() == 0 {
        Seq::empty()
    } else {
        Seq::<SheetCellView>::empty().push(text_cell(13, 0, "라벨"@, CellStyle::Header)).push(
            text_cell(13, 1, "값"@, CellStyle::Header),
        ) + entry_cells(n.labels, 14)
    }
}

/// The MIG section: after a blank row, a header row, then one row per device.
pub open spec fn mig_section(n: NodeView) -> Seq<SheetCellView> {
    if n.mig_devices.len() == 0 {
        Seq::empty()
    } else {
        let row = clamp_row(labels_end(n) + 1);
        Seq::<SheetCellView>::empty().push(text_cell(row, 0, "MIG 디바이스"@, CellStyle::Header)).push(
            text_cell(row, 1, "개수"@, CellStyle::Header),
        ) + entry_cells(n.mig_devices, labels_end(n) + 2)
    }
}

/// The cells of the "Node Info" sheet.
pub open spec fn node_sheet_cells(n: NodeView) -> Seq<SheetCellView> {
    node_property_cells(n) + label_section(n) + mig_section(n)
}

/// `k=v`.
pub open spec fn pair_text(e: Entry) -> Seq<char> {
    e.0 + "="@ + e.1
}

/// The labels as `k=v` pairs joined by `, `.
pub open spec fn labels_text(labels: Seq<Entry>) -> Seq<char>
    decreases labels.len(),
{
    if labels.len() == 0 {
        Seq::empty()
    } else if labels.len() == 1 {
        pair_text(labels[0])
    } else {
        labels_text(labels.drop_last()) + ", "@ + pair_text(labels.last())
    }
}

/// The header row of the "Pods" sheet.
pub open spec fn pod_header_cells() -> Seq<SheetCellView> {
    Seq::<SheetCellView>::empty().push(text_cell(0, 0, "Pod 이름"@, CellStyle::Header)).push(
        text_cell(0, 1, "네임스페이스"@, CellStyle::Header),
    ).push(text_cell(0, 2, "Container 수"@, CellStyle::Header)).push(
        text_cell(0, 3, "라벨"@, CellStyle::Header),
    )
}

/// The row of a pod: name, namespace, number of containers, labels.
pub open spec fn pod_row(p: PodView, row: u32) -> Seq<SheetCellView> {
    Seq::<SheetCellView>::empty().push(text_cell(row, 0, p.name, CellStyle::Data)).push(
        text_cell(row, 1, p.namespace, CellStyle::Data),
    ).push(
        SheetCellView {
            row,
            col: 2,
            content: CellContent::Number(p.containers.len() as u32),
            style: CellStyle::Data,
        },
    ).push(text_cell(row, 3, labels_text(p.labels), CellStyle::Data))
}

/// One row per pod, from row 1 on.
pub open spec fn pod_rows(pods: Seq<PodView>) -> Seq<SheetCellView>
    decreases pods.len(),
{
    if pods.len() == 0 {
        Seq::empty()
    } else {
        pod_rows(pods.drop_last()) + pod_row(pods.last(), clamp_row(pods.len() as int))
    }
}

/// The header row of the "Containers" sheet.
pub open spec fn container_header_cells() -> Seq<SheetCellView> {
    Seq::<SheetCellView>::empty().push(text_cell(0, 0, "Pod 이름"@, CellStyle::Header)).push(
        text_cell(0, 1, "네임스페이스"@, CellStyle::Header),
    ).push(text_cell(0, 2, "Container 이름"@, CellStyle::Header)).push(
        text_cell(0, 3, "이미지"@, CellStyle::Header),
    )
}

/// The row of a container: its pod's name and namespace, its name and image.
pub open spec fn container_row(p: PodView, c: ContainerView, row: u32) -> Seq<SheetCellView> {
    Seq::<SheetCellView>::empty().push(text_cell(row, 0, p.name, CellStyle::Data)).push(
        text_cell(row, 1, p.namespace, CellStyle::Data),
    ).push(text_cell(row, 2, c.name, CellStyle::Data)).push(text_cell(row, 3, c.image, CellStyle::Data))
}

/// The rows of containers `cs` of pod `p`, after `before` container rows.
pub open spec fn pod_container_rows(p: PodView, cs: Seq<ContainerView>, before: int) -> Seq<SheetCellView>
    decreases cs.len(),
{
    if cs.len() == 0 {
        Seq::empty()
    } else {
        pod_container_rows(p, cs.drop_last(), before) + container_row(
            p,
            cs.last(),
            clamp_row(before + cs.len()),
        )
    }
}

/// One row per container, pod after pod, from row 1 on.
pub open spec fn container_rows(pods: Seq<PodView>) -> Seq<SheetCellView>
    decreases pods.len(),
{
    if pods.len() == 0 {
        Seq::empty()
    } else {
        container_rows(pods.drop_last()) + pod_container_rows(
            pods.last(),
            pods.last().containers,
            containers_in(pods.drop_last()) as int,
        )
    }
}

pub open spec fn widths_of(a: u32, b: u32) -> Seq<(u16, u32)> {
    Seq::<(u16, u32)>::empty().push((0u16, a)).push((1u16, b))
}

pub open spec fn widths_of4(a: u32, b: u32, c: u32, d: u32) -> Seq<(u16, u32)> {
    widths_of(a, b).push((2u16, c)).push((3u16, d))
}

/// The three sheets of the report of node `n`.
pub open spec fn node_report_view(n: NodeView) -> Seq<SheetLayoutView> {
    Seq::<SheetLayoutView>::empty().push(
        SheetLayoutView { name: "Node Info"@, cells: node_sheet_cells(n), widths: widths_of(20, 30) },
    ).push(
        SheetLayoutView {
            name: "Pods"@,
            cells: pod_header_cells() + pod_rows(n.pods),
            widths: widths_of4(30, 20, 15, 50),
        },
    ).push(
        SheetLayoutView {
            name: "Containers"@,
            cells: container_header_cells() + container_rows(n.pods),
            widths: widths_of4(30, 20, 25, 60),
        },
    )
}

fn push_text(cells: &mut Vec<SheetCell>, row: u32, col: u16, text: String, style: CellStyle)
    ensures
        final(cells)@.map_values(|c: SheetCell| c@) == old(cells)@.map_values(|c: SheetCell| c@).push(
            text_cell(row, col, text@, style),
        ),
{
    let ghost before = cells@;
    cells.push(SheetCell { row, col, value: CellValue::Text(text), style });
    assert(cells@.map_values(|c: SheetCell| c@) =~= before.map_values(|c: SheetCell| c@).push(
        text_cell(row, col, text@, style),
    ));
}

fn push_number(cells: &mut Vec<SheetCell>, row: u32, col: u16, x: u32)
    ensures
        final(cells)@.map_values(|c: SheetCell| c@) == old(cells)@.map_values(|c: SheetCell| c@).push(
            SheetCellView { row, col, content: CellContent::Number(x), style: CellStyle::Data },
        ),
{
    let ghost before = cells@;
    cells.push(SheetCell { row, col, value: CellValue::Number(x), style: CellStyle::Data });
    assert(cells@.map_values(|c: SheetCell| c@) =~= before.map_values(|c: SheetCell| c@).push(
        SheetCellView { row, col, content: CellContent::Number(x), style: CellStyle::Data },
    ));
}

/// Appends one row per entry of `map`, from row `row` on; returns the row
/// after the last.
fn push_entries(cells: &mut Vec<SheetCell>, map: &StringMap, row: u32, Ghost(start): Ghost<int>) -> (next: u32)
    requires
        start >= 0,
        row == clamp_row(start),
    ensures
        final(cells)@.map_values(|c: SheetCell| c@) == old(cells)@.map_values(|c: SheetCell| c@) + entry_cells(
            map@,
            start,
        ),
        next == clamp_row(start + map@.len()),
{
    let ghost base = old(cells)@.map_values(|c: SheetCell| c@);
    let n = map.len();
    let mut r = row;
    let mut i: usize = 0;
    assert(map@.take(0) =~= Seq::<Entry>::empty());
    assert(base + entry_cells(Seq::<Entry>::empty(), start) =~= base);
    while i < n
        invariant
            i <= n,
            n == map@.len(),
            start >= 0,
            r == clamp_row(start + i),
            cells@.map_values(|c: SheetCell| c@) == base + entry_cells(map@.take(i as int), start),
        decreases n - i,
    {
        let ghost t = map@.take(i + 1);
        assert(t.drop_last() =~= map@.take(i as int));
        let ghost prev = base + entry_cells(map@.take(i as int), start);
        push_text(cells, r, 0, map.key_at(i).clone(), CellStyle::Data);
        push_text(cells, r, 1, map.value_at(i).clone(), CellStyle::Data);
        assert(prev.push(text_cell(r, 0, t.last().0, CellStyle::Data)).push(
            text_cell(r, 1, t.last().1, CellStyle::Data),
        ) =~= base + entry_cells(t, start));
        r = r.saturating_add(1);
        i = i + 1;
    }
    assert(map@.take(n as int) =~= map@);
    r
}

/// The cells of the "Node Info" sheet of `node`.
pub fn node_sheet(node: &NodeInfo) -> (cells: Vec<SheetCell>)
    ensures
        cells@.map_values(|c: SheetCell| c@) == node_sheet_cells(node@),
{
    let mut cells: Vec<SheetCell> = Vec::new();
    assert(cells@.map_values(|c: SheetCell| c@) =~= Seq::<SheetCellView>::empty());
    push_text(&mut cells, 0, 0, owned("항목"), CellStyle::Header);
    push_text(&mut cells, 0, 1, owned("값"), CellStyle::Header);
    push_text(&mut cells, 1, 0, owned("노드 이름"), CellStyle::Data);
    push_text(&mut cells, 1, 1, node.name.clone(), CellStyle::Data);
    push_text(&mut cells, 2, 0, owned("클러스터"), CellStyle::Data);
    push_text(&mut cells, 2, 1, node.cluster_name.clone(), CellStyle::Data);
    push_text(&mut cells, 3, 0, owned("OS 이미지"), CellStyle::Data);
    push_text(&mut cells, 3, 1, node.os_image.clone(), CellStyle::Data);
    push_text(&mut cells, 4, 0, owned("Kubelet 버전"), CellStyle::Data);
    push_text(&mut cells, 4, 1, node.kubelet_version.clone(), CellStyle::Data);
    push_text(&mut cells, 5, 0, owned("아키텍처"), CellStyle::Data);
    push_text(&mut cells, 5, 1, node.architecture.clone(), CellStyle::Data);
    push_text(&mut cells, 6, 0, owned("CPU 용량"), CellStyle::Data);
    push_text(&mut cells, 6, 1, node.capacity_cpu.clone(), CellStyle::Data);
    push_text(&mut cells, 7, 0, owned("메모리 용량"), CellStyle::Data);
    push_text(&mut cells, 7, 1, node.capacity_memory.clone(), CellStyle::Data);
    push_text(&mut cells, 8, 0, owned("GPU 모델"), CellStyle::Data);
    push_text(&mut cells, 8, 1, node.gpu_model.clone(), CellStyle::Data);
    push_text(&mut cells, 9, 0, owned("GPU 개수"), CellStyle::Data);
    push_text(&mut cells, 9, 1, node.gpu_count.clone(), CellStyle::Data);
    push_text(&mut cells, 10, 0, owned("Pod 수"), CellStyle::Data);
    push_text(&mut cells, 10, 1, decimal_string(node.pod_count), CellStyle::Data);
    push_text(&mut cells, 11, 0, owned("Container 수"), CellStyle::Data);
    push_text(&mut cells, 11, 1, decimal_string(node.container_count), CellStyle::Data);
    let ghost props = node_property_cells(node@);
    assert(cells@.map_values(|c: SheetCell| c@) == props);
    let mut row: u32 = 12;
    if !node.labels.is_empty() {
        push_text(&mut cells, 13, 0, owned("라벨"), CellStyle::Header);
        push_text(&mut cells, 13, 1, owned("값"), CellStyle::Header);
        let ghost heads = cells@.map_values(|c: SheetCell| c@);
        row = push_entries(&mut cells, &node.labels, 14, Ghost(14));
        assert(heads + entry_cells(node@.labels, 14) =~= props + label_section(node@));
    } else {
        assert(props + label_section(node@) =~= props);
    }
    assert(row == clamp_row(labels_end(node@)));
    let ghost with_labels = props + label_section(node@);
    assert(cells@.map_values(|c: SheetCell| c@) == with_labels);
    if !node.mig_devices.is_empty() {
        row = row.saturating_add(1);
        push_text(&mut cells, row, 0, owned("MIG 디바이스"), CellStyle::Header);
        push_text(&mut cells, row, 1, owned("개수"), CellStyle::Header);
        let ghost heads = cells@.map_values(|c: SheetCell| c@);
        row = row.saturating_add(1);
        row = push_entries(&mut cells, &node.mig_devices, row, Ghost(labels_end(node@) + 2));
        assert(heads + entry_cells(node@.mig_devices, labels_end(node@) + 2) =~= with_labels
            + mig_section(node@));
    } else {
        assert(with_labels + mig_section(node@) =~= with_labels);
    }
    cells
}

/// The labels of a pod as `k=v` pairs joined by `, `.
pub fn labels_string(labels: &StringMap) -> (r: String)
    ensures
        r@ == labels_text(labels@),
{
    let n = labels.len();
    let mut r = String::new();
    let mut i: usize = 0;
    assert(labels@.take(0) =~= Seq::<Entry>::empty());
    while i < n
        invariant
            i <= n,
            n == labels@.len(),
            r@ == labels_text(labels@.take(i as int)),
        decreases n - i,
    {
        let ghost t = labels@.take(i + 1);
        assert(t.drop_last() =~= labels@.take(i as int));
        let ghost before = r@;
        if i > 0 {
            r.append(", ");
        }
        r.append(labels.key_at(i).as_str());
        r.append("=");
        r.append(labels.value_at(i).as_str());
        if i == 0 {
            assert(r@ =~= pair_text(t[0]));
        } else {
            assert(r@ =~= before + ", "@ + pair_text(t.last()));
        }
        i = i + 1;
    }
    assert(labels@.take(n as int) =~= labels@);
    r
}

/// The cells of the "Pods" sheet: a header row, then one row per pod.
pub fn pod_sheet(pods: &Vec<PodInfo>) -> (cells: Vec<SheetCell>)
    ensures
        cells@.map_values(|c: SheetCell| c@) == pod_header_cells() + pod_rows(
            pods@.map_values(|p: PodInfo| p@),
        ),
{
    let ghost pv = pods@.map_values(|p: PodInfo| p@);
    let mut cells: Vec<SheetCell> = Vec::new();
    assert(cells@.map_values(|c: SheetCell| c@) =~= Seq::<SheetCellView>::empty());
    push_text(&mut cells, 0, 0, owned("Pod 이름"), CellStyle::Header);
    push_text(&mut cells, 0, 1, owned("네임스페이스"), CellStyle::Header);
    push_text(&mut cells, 0, 2, owned("Container 수"), CellStyle::Header);
    push_text(&mut cells, 0, 3, owned("라벨"), CellStyle::Header);
    let ghost heads = pod_header_cells();
    assert(pv.take(0) =~= Seq::<PodView>::empty());
    assert(heads + pod_rows(Seq::<PodView>::empty()) =~= heads);
    let n = pods.len();
    let mut row: u32 = 1;
    let mut i: usize = 0;
    while i < n
        invariant
            i <= n,
            n == pv.len(),
            pv == pods@.map_values(|p: PodInfo| p@),
            heads == pod_header_cells(),
            row == clamp_row(i + 1),
            cells@.map_values(|c: SheetCell| c@) == heads + pod_rows(pv.take(i as int)),
        decreases n - i,
    {
        let pod = &pods[i];
        let ghost t = pv.take(i + 1);
        assert(t.drop_last() =~= pv.take(i as int));
        assert(t.last() == pod@);
        let ghost prev = heads + pod_rows(pv.take(i as int));
        push_text(&mut cells, row, 0, pod.name.clone(), CellStyle::Data);
        push_text(&mut cells, row, 1, pod.namespace.clone(), CellStyle::Data);
        push_number(&mut cells, row, 2, pod.containers.len() as u32);
        push_text(&mut cells, row, 3, labels_string(&pod.labels), CellStyle::Data);
        assert(pod@.containers.len() == pod.containers@.len());
        assert(cells@.map_values(|c: SheetCell| c@) =~= heads + pod_rows(t));
        row = row.saturating_add(1);
        i = i + 1;
    }
    assert(pv.take(n as int) =~= pv);
    cells
}

/// The cells of the "Containers" sheet: a header row, then one row per
/// container, pod after pod.
pub fn container_sheet(pods: &Vec<PodInfo>) -> (cells: Vec<SheetCell>)
    ensures
        cells@.map_values(|c: SheetCell| c@) == container_header_cells() + container_rows(
            pods@.map_values(|p: PodInfo| p@),
        ),
{
    let ghost pv = pods@.map_values(|p: PodInfo| p@);
    let mut cells: Vec<SheetCell> = Vec::new();
    assert(cells@.map_values(|c: SheetCell| c@) =~= Seq::<SheetCellView>::empty());
    push_text(&mut cells, 0, 0, owned("Pod 이름"), CellStyle::Header);
    push_text(&mut cells, 0, 1, owned("네임스페이스"), CellStyle::Header);
    push_text(&mut cells, 0, 2, owned("Container 이름"), CellStyle::Header);
    push_text(&mut cells, 0, 3, owned("이미지"), CellStyle::Header);
    let ghost heads = container_header_cells();
    assert(pv.take(0) =~= Seq::<PodView>::empty());
    assert(heads + container_rows(Seq::<PodView>::empty()) =~= heads);
    let n = pods.len();
    let mut row: u32 = 1;
    let mut i: usize = 0;
    while i < n
        invariant
            i <= n,
            n == pv.len(),
            pv == pods@.map_values(|p: PodInfo| p@),
            heads == container_header_cells(),
            row == clamp_row(containers_in(pv.take(i as int)) as int + 1),
            cells@.map_values(|c: SheetCell| c@) == heads + container_rows(pv.take(i as int)),
        decreases n - i,
    {
        let pod = &pods[i];
        let ghost t = pv.take(i + 1);
        assert(t.drop_last() =~= pv.take(i as int));
        assert(t.last() == pod@);
        let ghost before = containers_in(pv.take(i as int)) as int;
        let ghost base = heads + container_rows(pv.take(i as int));
        let ghost cv = pod@.containers;
        let m = pod.containers.len();
        let mut j: usize = 0;
        assert(cv.take(0) =~= Seq::<ContainerView>::empty());
        assert(base + pod_container_rows(pod@, Seq::<ContainerView>::empty(), before) =~= base);
        while j < m
            invariant
                j <= m,
                m == cv.len(),
                cv == pod@.containers,
                before >= 0,
                row == clamp_row(before + j + 1),
                cells@.map_values(|c: SheetCell| c@) == base + pod_container_rows(pod@, cv.take(j as int), before),
            decreases m - j,
        {
            let c = &pod.containers[j];
            let ghost u = cv.take(j + 1);
            assert(u.drop_last() =~= cv.take(j as int));
            assert(u.last() == c@);
            let ghost prev = base + pod_container_rows(pod@, cv.take(j as int), before);
            push_text(&mut cells, row, 0, pod.name.clone(), CellStyle::Data);
            push_text(&mut cells, row, 1, pod.namespace.clone(), CellStyle::Data);
            push_text(&mut cells, row, 2, c.name.clone(), CellStyle::Data);
            push_text(&mut cells, row, 3, c.image.clone(), CellStyle::Data);
            assert(cells@.map_values(|c: SheetCell| c@) =~= base + pod_container_rows(pod@, u, before));
            row = row.saturating_add(1);
            j = j + 1;
        }
        assert(cv.take(m as int) =~= cv);
        assert(cells@.map_values(|c: SheetCell| c@) =~= heads + container_rows(t));
        i = i + 1;
    }
    assert(pv.take(n as int) =~= pv);
    cells
}

fn push_width(widths: &mut Vec<ColumnWidth>, col: u16, width: u32)
    ensures
        final(widths)@.map_values(|w: ColumnWidth| (w.col, w.width)) == old(widths)@.map_values(
            |w: ColumnWidth| (w.col, w.width),
        ).push((col, width)),
{
    let ghost before = widths@;
    widths.push(ColumnWidth { col, width });
    assert(widths@.map_values(|w: ColumnWidth| (w.col, w.width)) =~= before.map_values(
        |w: ColumnWidth| (w.col, w.width),
    ).push((col, width)));
}

fn widths2(a: u32, b: u32) -> (r: Vec<ColumnWidth>)
    ensures
        r@.map_values(|w: ColumnWidth| (w.col, w.width)) == widths_of(a, b),
{
    let mut r: Vec<ColumnWidth> = Vec::new();
    assert(r@.map_values(|w: ColumnWidth| (w.col, w.width)) =~= Seq::<(u16, u32)>::empty());
    push_width(&mut r, 0, a);
    push_width(&mut r, 1, b);
    r
}

fn widths4(a: u32, b: u32, c: u32, d: u32) -> (r: Vec<ColumnWidth>)
    ensures
        r@.map_values(|w: ColumnWidth| (w.col, w.width)) == widths_of4(a, b, c, d),
{
    let mut r = widths2(a, b);
    push_width(&mut r, 2, c);
    push_width(&mut r, 3, d);
    r
}

/// Every column width of a layout is positive and at most the widest a
/// column can be.
pub open spec fn widths_in_range(l: SheetLayoutView) -> bool {
    forall|i: int| 0 <= i < l.widths.len() ==> 0 < (#[trigger] l.widths[i]).1 <= max_column_width()
}

/// The report of `node` laid out as three sheets: "Node Info", "Pods" and
/// "Containers".
pub fn node_report(node: &NodeInfo) -> (r: Vec<SheetLayout>)
    ensures
        r@.map_values(|l: SheetLayout| l@) == node_report_view(node@),
{
    let mut r: Vec<SheetLayout> = Vec::new();
    let info = SheetLayout { name: owned("Node Info"), cells: node_sheet(node), widths: widths2(20, 30) };
    let pods = SheetLayout {
        name: owned("Pods"),
        cells: pod_sheet(&node.pods),
        widths: widths4(30, 20, 15, 50),
    };
    let containers = SheetLayout {
        name: owned("Containers"),
        cells: container_sheet(&node.pods),
        widths: widths4(30, 20, 25, 60),
    };
    let ghost views = Seq::<SheetLayoutView>::empty().push(info@).push(pods@).push(containers@);
    r.push(info);
    r.push(pods);
    r.push(containers);
    assert(r@.map_values(|l: SheetLayout| l@) =~= views);
    r
}

proof fn lemma_report_error_skip(sheets: Seq<SheetLayoutView>, i: int)
    requires
        0 <= i <= sheets.len(),
        forall|j: int| 0 <= j < i ==> sheet_error(#[trigger] sheets[j]) is None,
    ensures
        report_error(sheets) == report_error(sheets.skip(i)),
    decreases i,
{
    if i > 0 {
        let t = sheets.drop_first();
        assert forall|j: int| 0 <= j < i - 1 implies sheet_error(#[trigger] t[j]) is None by {
            assert(t[j] == sheets[j + 1]);
        }
        lemma_report_error_skip(t, i - 1);
        assert(t.skip(i - 1) =~= sheets.skip(i));
    } else {
        assert(sheets.skip(0) =~= sheets);
    }
}

/// The workbook of the report of `node`: its three sheets written in order.
/// Fails with the error of the first sheet that cannot be written.
pub fn build_node_workbook(node: &NodeInfo) -> (r: Result<Workbook, ExcelError>)
    ensures
        r is Ok <==> report_error(node_report_view(node@)) is None,
        match r {
            Ok(wb) => workbook_sheets(wb) == node_report_view(node@).map_values(
                |l: SheetLayoutView| layout_sheet(l),
            ),
            Err(e) => report_error(node_report_view(node@)) == Some(e),
        },
{
    let layouts = node_report(node);
    let ghost lv = node_report_view(node@);
    assert(lv == layouts@.map_values(|l: SheetLayout| l@));
    assert forall|k: int| 0 <= k < lv.len() implies widths_in_range(#[trigger] lv[k]) by {
        assert(lv[k].widths.len() == 2 || lv[k].widths.len() == 4);
    }
    let header = header_format();
    let data = data_format();
    let mut wb = new_workbook();
    let n = layouts.len();
    let mut i: usize = 0;
    assert(lv.take(0).map_values(|l: SheetLayoutView| layout_sheet(l)) =~= Seq::<SheetModel>::empty());
    while i < n
        invariant
            i <= n,
            n == lv.len(),
            lv == layouts@.map_values(|l: SheetLayout| l@),
            lv == node_report_view(node@),
            forall|k: int| 0 <= k < lv.len() ==> widths_in_range(#[trigger] lv[k]),
            format_model(header) == style_format(CellStyle::Header),
            format_model(data) == style_format(CellStyle::Data),
            forall|k: int| 0 <= k < i ==> sheet_error(#[trigger] lv[k]) is None,
            workbook_sheets(wb) == lv.take(i as int).map_values(|l: SheetLayoutView| layout_sheet(l)),
        decreases n - i,
    {
        let layout = &layouts[i];
        assert(lv[i as int] == layout@);
        assert(widths_in_range(lv[i as int]));
        assert forall|k: int| 0 <= k < layout.widths@.len() implies 0 < (
        #[trigger] layout.widths@[k]).width <= max_column_width() by {
            assert(lv[i as int].widths[k] == (layout.widths@[k].col, layout.widths@[k].width));
        }
        match render_sheet(layout, &header, &data) {
            Ok(ws) => {
                let ghost before = workbook_sheets(wb);
                push_worksheet(&mut wb, ws);
                assert(lv.take(i + 1).map_values(|l: SheetLayoutView| layout_sheet(l)) =~= before.push(
                    layout_sheet(lv[i as int]),
                ));
            },
            Err(e) => {
                proof {
                    lemma_report_error_skip(lv, i as int);
                }
                return Err(e);
            },
        }
        i = i + 1;
    }
    proof {
        lemma_report_error_skip(lv, n as int);
        assert(lv.skip(n as int) =~= Seq::<SheetLayoutView>::empty());
        assert(lv.take(n as int) =~= lv);
    }
    Ok(wb)
}

/// The xlsx file of the report of `node`: on success, an xlsx file whose
/// worksheets are the three sheets of the report. Fails with the error of
/// the first sheet that cannot be written, or with `Save` when the
/// workbook cannot be saved. (The file also records the time it was made,
/// so its bytes are fixed only up to that.)
pub fn generate_node_excel(node_info: &NodeInfo) -> (r: Result<Vec<u8>, ExcelError>)
    ensures
        r matches Ok(b) ==> xlsx_file_of(
            b@,
            node_report_view(node_info@).map_values(|l: SheetLayoutView| layout_sheet(l)),
        ),
        report_error(node_report_view(node_info@)) is Some ==> (r matches Err(e) && report_error(
            node_report_view(node_info@),
        ) == Some(e)),
        r matches Err(e) ==> report_error(node_report_view(node_info@)) == Some(e) || (report_error(
            node_report_view(node_info@),
        ) is None && e == ExcelError::Save),
{
    match build_node_workbook(node_info) {
        Ok(mut wb) => match save_to_buffer(&mut wb) {
            Ok(bytes) => Ok(bytes),
            Err(_) => Err(ExcelError::Save),
        },
        Err(e) => Err(e),
    }
}

proof fn lemma_utf16_len_bmp(s: Seq<char>)
    requires
        forall|i: int| 0 <= i < s.len() ==> #[trigger] s[i] <= '\u{FFFF}',
    ensures
        utf16_len(s) == s.len(),
    decreases s.len(),
{
    if s.len() > 0 {
        let t = s.drop_last();
        assert forall|i: int| 0 <= i < t.len() implies #[trigger] t[i] <= '\u{FFFF}' by {
            assert(t[i] == s[i]);
        }
        lemma_utf16_len_bmp(t);
    }
}

/// The three sheet names of the report are names a worksheet can take.
pub proof fn lemma_report_names_valid()
    ensures
        valid_sheet_name("Node Info"@),
        valid_sheet_name("Pods"@),
        valid_sheet_name("Containers"@),
{
    reveal_strlit("Node Info");
    assert forall|i: int| 0 <= i < "Node Info"@.len() implies (!invalid_sheet_char(#[trigger] "Node Info"@[i]) && "Node Info"@[i] <= '\u{FFFF}') by {
        if i == 0 {} else if i == 1 {} else if i == 2 {} else if i == 3 {} else if i == 4 {} else if i == 5 {} else if i == 6 {} else if i == 7 {} else if i == 8 {}
    }
    lemma_utf16_len_bmp("Node Info"@);
    assert(valid_sheet_name("Node Info"@));
    reveal_strlit("Pods");
    assert forall|i: int| 0 <= i < "Pods"@.len() implies (!invalid_sheet_char(#[trigger] "Pods"@[i]) && "Pods"@[i] <= '\u{FFFF}') by {
        if i == 0 {} else if i == 1 {} else if i == 2 {} else if i == 3 {}
    }
    lemma_utf16_len_bmp("Pods"@);
    assert(valid_sheet_name("Pods"@));
    reveal_strlit("Containers");
    assert forall|i: int| 0 <= i < "Containers"@.len() implies (!invalid_sheet_char(#[trigger] "Containers"@[i]) && "Containers"@[i] <= '\u{FFFF}') by {
        if i == 0 {} else if i == 1 {} else if i == 2 {} else if i == 3 {} else if i == 4 {} else if i == 5 {} else if i == 6 {} else if i == 7 {} else if i == 8 {} else if i == 9 {}
    }
    lemma_utf16_len_bmp("Containers"@);
    assert(valid_sheet_name("Containers"@));
}

/// Writing the report of a node fails exactly when a cell of it does not
/// fit (outside the sheet's rows, or text too long for a cell): sheet
/// names and column widths always can be set.
pub proof fn lemma_report_fails_only_on_cells(n: NodeView)
    ensures
        report_error(node_report_view(n)) is None <==> (first_cell_error(node_report_view(n)[0].cells) is None
            && first_cell_error(node_report_view(n)[1].cells) is None && first_cell_error(
            node_report_view(n)[2].cells,
        ) is None),
{
    lemma_report_names_valid();
    let v = node_report_view(n);
    assert forall|k: int| 0 <= k < 3 implies sheet_error(#[trigger] v[k]) == first_cell_error(v[k].cells) by {
        let w = v[k].widths;
        assert(w.len() == 2 || w.len() == 4);
        assert forall|j: int| 0 <= j < w.len() implies (#[trigger] w[j]).0 < column_limit() by {
            assert(w[j].0 <= 3);
        }
        lemma_first_width_error_skip(w, w.len() as int);
        assert(w.skip(w.len() as int) =~= Seq::<(u16, u32)>::empty());
    }
    let v1 = v.drop_first();
    let v2 = v1.drop_first();
    let v3 = v2.drop_first();
    assert(v3 =~= Seq::<SheetLayoutView>::empty());
    assert(v1[0] == v[1]);
    assert(v2[0] == v[2]);
    assert(report_error(v3) is None);
    assert(report_error(v2) == (if sheet_error(v2[0]) is Some {
        sheet_error(v2[0])
    } else {
        report_error(v3)
    }));
    assert(report_error(v1) == (if sheet_error(v1[0]) is Some {
        sheet_error(v1[0])
    } else {
        report_error(v2)
    }));
}

/// The place of a cell: its row and column.
pub open spec fn cell_key(c: SheetCellView) -> (u32, u16) {
    (c.row, c.col)
}

/// A cell written after every other cell at its place is what the sheet
/// holds there.
proof fn lemma_written_cells_last(cells: Seq<SheetCellView>, i: int)
    requires
        0 <= i < cells.len(),
        forall|j: int| i < j < cells.len() ==> cell_key(#[trigger] cells[j]) != cell_key(cells[i]),
    ensures
        written_cells(cells).dom().contains(cell_key(cells[i])),
        written_cells(cells)[cell_key(cells[i])] == (cells[i].content, style_format(cells[i].style)),
    decreases cells.len(),
{
    let t = cells.drop_last();
    if i < cells.len() - 1 {
        assert forall|j: int| i < j < t.len() implies cell_key(#[trigger] t[j]) != cell_key(t[i]) by {
            assert(t[j] == cells[j]);
        }
        lemma_written_cells_last(t, i);
        assert(cell_key(cells.last()) != cell_key(cells[i]));
    }
}

proof fn lemma_clamp_row(x: int, y: int)
    requires
        0 <= x,
    ensures
        x < u32::MAX ==> clamp_row(x) == x,
        x <= y ==> clamp_row(x) <= clamp_row(y),
        x < u32::MAX && x < y ==> x < clamp_row(y),
        x <= clamp_row(x) || clamp_row(x) == u32::MAX,
{
}

/// The cells of `entries` from row `start`: entry `k` at row `start + k`
/// (held at `u32::MAX`), its key in column 0 and its value in column 1.
proof fn lemma_entry_cells_index(entries: Seq<Entry>, start: int)
    ensures
        entry_cells(entries, start).len() == 2 * entries.len(),
        forall|j: int|
            0 <= j < entry_cells(entries, start).len() ==> {
                let c = #[trigger] entry_cells(entries, start)[j];
                &&& c.row == clamp_row(start + j / 2)
                &&& c.col == j % 2
                &&& c.style == CellStyle::Data
                &&& c.content == CellContent::Text(
                    if j % 2 == 0 {
                        entries[j / 2].0
                    } else {
                        entries[j / 2].1
                    },
                )
            },
    decreases entries.len(),
{
    if entries.len() > 0 {
        let t = entries.drop_last();
        lemma_entry_cells_index(t, start);
        let e = entry_cells(entries, start);
        let prev = entry_cells(t, start);
        assert forall|j: int| 0 <= j < e.len() implies {
            let c = #[trigger] e[j];
            &&& c.row == clamp_row(start + j / 2)
            &&& c.col == j % 2
            &&& c.style == CellStyle::Data
            &&& c.content == CellContent::Text(
                if j % 2 == 0 {
                    entries[j / 2].0
                } else {
                    entries[j / 2].1
                },
            )
        } by {
            if j < prev.len() {
                assert(e[j] == prev[j]);
                assert(t[j / 2] == entries[j / 2]);
            } else if j == prev.len() {
                assert(j / 2 == entries.len() - 1);
                assert(j % 2 == 0);
            } else {
                assert(j / 2 == entries.len() - 1);
                assert(j % 2 == 1);
            }
        }
    }
}

/// The eleven property rows and the header row hold one cell per column:
/// cell `j` of the properties is at row `j / 2`, column `j % 2`; every cell
/// after them lies below row 12.
proof fn lemma_node_sheet_places(n: NodeView)
    ensures
        node_property_cells(n).len() == 24,
        node_sheet_cells(n).len() == 24 + label_section(n).len() + mig_section(n).len(),
        forall|j: int|
            0 <= j < 24 ==> (#[trigger] node_sheet_cells(n)[j]) == node_property_cells(n)[j]
                && node_sheet_cells(n)[j].row == j / 2 && node_sheet_cells(n)[j].col == j % 2,
        forall|j: int| 24 <= j < node_sheet_cells(n).len() ==> (#[trigger] node_sheet_cells(n)[j]).row >= 13,
{
    let p = node_property_cells(n);
    let l = label_section(n);
    let m = mig_section(n);
    let s = node_sheet_cells(n);
    assert(p.len() == 24);
    assert forall|j: int| 0 <= j < 24 implies p[j].row == j / 2 && p[j].col == j % 2 by {
        if j == 0 {} else if j == 1 {} else if j == 2 {} else if j == 3 {} else if j == 4 {} else if j == 5 {}
        else if j == 6 {} else if j == 7 {} else if j == 8 {} else if j == 9 {} else if j == 10 {}
        else if j == 11 {} else if j == 12 {} else if j == 13 {} else if j == 14 {} else if j == 15 {}
        else if j == 16 {} else if j == 17 {} else if j == 18 {} else if j == 19 {} else if j == 20 {}
        else if j == 21 {} else if j == 22 {} else {}
    }
    assert forall|j: int| 0 <= j < 24 implies (#[trigger] s[j]) == p[j] by {
        assert((p + l)[j] == p[j]);
    }
    lemma_entry_cells_index(n.labels, 14);
    lemma_entry_cells_index(n.mig_devices, labels_end(n) + 2);
    assert forall|t: int| 0 <= t < l.len() implies (#[trigger] l[t]).row >= 13 by {
        if t >= 2 {
            let e = entry_cells(n.labels, 14);
            assert(l[t] == e[t - 2]);
            lemma_clamp_row(14 + (t - 2) / 2, 14 + (t - 2) / 2);
        }
    }
    assert forall|t: int| 0 <= t < m.len() implies (#[trigger] m[t]).row >= 13 by {
        lemma_clamp_row(labels_end(n) + 1, labels_end(n) + 1);
        if t >= 2 {
            let e = entry_cells(n.mig_devices, labels_end(n) + 2);
            assert(m[t] == e[t - 2]);
            lemma_clamp_row(labels_end(n) + 2 + (t - 2) / 2, labels_end(n) + 2 + (t - 2) / 2);
        }
    }
    assert forall|j: int| 24 <= j < s.len() implies (#[trigger] s[j]).row >= 13 by {
        if j < 24 + l.len() {
            assert(s[j] == l[j - 24]);
        } else {
            assert(s[j] == m[j - 24 - l.len()]);
        }
    }
}

/// The sheet `cells` shows `text` at row `row`, column `col`, in `style`.
pub open spec fn shows_text(
    cells: Map<(u32, u16), (CellContent, FormatModel)>,
    row: u32,
    col: u16,
    text: Seq<char>,
    style: CellStyle,
) -> bool {
    cells.dom().contains((row, col)) && cells[(row, col)] == (CellContent::Text(text), style_format(style))
}

/// The "Node Info" sheet of a node's report shows, in its header row and
/// in each of its eleven property rows, the label in column 0 and, beside
/// it in column 1, the node field that the label names: row 7, "메모리
/// 용량", shows the memory capacity, row 6, "CPU 용량", the CPU capacity,
/// and so on.
pub proof fn lemma_node_info_sheet_shows_node(n: NodeView)
    ensures
        node_report_view(n)[0].name == "Node Info"@,
        ({
            let cells = layout_sheet(node_report_view(n)[0]).cells;
            &&& shows_text(cells, 0, 0, "항목"@, CellStyle::Header)
            &&& shows_text(cells, 0, 1, "값"@, CellStyle::Header)
            &&& shows_text(cells, 1, 0, "노드 이름"@, CellStyle::Data)
            &&& shows_text(cells, 1, 1, n.name, CellStyle::Data)
            &&& shows_text(cells, 2, 0, "클러스터"@, CellStyle::Data)
            &&& shows_text(cells, 2, 1, n.cluster_name, CellStyle::Data)
            &&& shows_text(cells, 3, 0, "OS 이미지"@, CellStyle::Data)
            &&& shows_text(cells, 3, 1, n.os_image, CellStyle::Data)
            &&& shows_text(cells, 4, 0, "Kubelet 버전"@, CellStyle::Data)
            &&& shows_text(cells, 4, 1, n.kubelet_version, CellStyle::Data)
            &&& shows_text(cells, 5, 0, "아키텍처"@, CellStyle::Data)
            &&& shows_text(cells, 5, 1, n.architecture, CellStyle::Data)
            &&& shows_text(cells, 6, 0, "CPU 용량"@, CellStyle::Data)
            &&& shows_text(cells, 6, 1, n.capacity_cpu, CellStyle::Data)
            &&& shows_text(cells, 7, 0, "메모리 용량"@, CellStyle::Data)
            &&& shows_text(cells, 7, 1, n.capacity_memory, CellStyle::Data)
            &&& shows_text(cells, 8, 0, "GPU 모델"@, CellStyle::Data)
            &&& shows_text(cells, 8, 1, n.gpu_model, CellStyle::Data)
            &&& shows_text(cells, 9, 0, "GPU 개수"@, CellStyle::Data)
            &&& shows_text(cells, 9, 1, n.gpu_count, CellStyle::Data)
            &&& shows_text(cells, 10, 0, "Pod 수"@, CellStyle::Data)
            &&& shows_text(cells, 10, 1, decimal(n.pod_count), CellStyle::Data)
            &&& shows_text(cells, 11, 0, "Container 수"@, CellStyle::Data)
            &&& shows_text(cells, 11, 1, decimal(n.container_count), CellStyle::Data)
        }),
{
    let s = node_sheet_cells(n);
    lemma_node_sheet_places(n);
    assert(node_report_view(n)[0].cells == s);
    assert forall|i: int, j: int| 0 <= i < 24 && i < j < s.len() implies cell_key(#[trigger] s[j]) != cell_key(
        #[trigger] s[i],
    ) by {
        if j < 24 {
            assert(s[j].row == j / 2 && s[j].col == j % 2);
        }
    }
    lemma_written_cells_last(s, 0);
    lemma_written_cells_last(s, 1);
    lemma_written_cells_last(s, 2);
    lemma_written_cells_last(s, 3);
    lemma_written_cells_last(s, 4);
    lemma_written_cells_last(s, 5);
    lemma_written_cells_last(s, 6);
    lemma_written_cells_last(s, 7);
    lemma_written_cells_last(s, 8);
    lemma_written_cells_last(s, 9);
    lemma_written_cells_last(s, 10);
    lemma_written_cells_last(s, 11);
    lemma_written_cells_last(s, 12);
    lemma_written_cells_last(s, 13);
    lemma_written_cells_last(s, 14);
    lemma_written_cells_last(s, 15);
    lemma_written_cells_last(s, 16);
    lemma_written_cells_last(s, 17);
    lemma_written_cells_last(s, 18);
    lemma_written_cells_last(s, 19);
    lemma_written_cells_last(s, 20);
    lemma_written_cells_last(s, 21);
    lemma_written_cells_last(s, 22);
    lemma_written_cells_last(s, 23);
}

/// Where the label and MIG sections stand in the "Node Info" cells, and
/// the rows of their cells.
proof fn lemma_node_sheet_sections(n: NodeView)
    ensures
        ({
            let s = node_sheet_cells(n);
            let l = label_section(n);
            let m = mig_section(n);
            let le = entry_cells(n.labels, 14);
            let me = entry_cells(n.mig_devices, labels_end(n) + 2);
            &&& s.len() == 24 + l.len() + m.len()
            &&& forall|t: int| 0 <= t < l.len() ==> s[24 + t] == #[trigger] l[t]
            &&& forall|t: int| 0 <= t < m.len() ==> s[24 + l.len() + t] == #[trigger] m[t]
            &&& n.labels.len() == 0 ==> l.len() == 0
            &&& n.labels.len() > 0 ==> l.len() == 2 + le.len() && l[0] == text_cell(13, 0, "라벨"@, CellStyle::Header)
                && l[1] == text_cell(13, 1, "값"@, CellStyle::Header) && forall|e: int|
                0 <= e < le.len() ==> l[2 + e] == #[trigger] le[e]
            &&& n.mig_devices.len() == 0 ==> m.len() == 0
            &&& n.mig_devices.len() > 0 ==> m.len() == 2 + me.len() && m[0] == text_cell(
                clamp_row(labels_end(n) + 1),
                0,
                "MIG 디바이스"@,
                CellStyle::Header,
            ) && m[1] == text_cell(clamp_row(labels_end(n) + 1), 1, "개수"@, CellStyle::Header) && forall|e: int|
                0 <= e < me.len() ==> m[2 + e] == #[trigger] me[e]
        }),
{
    let p = node_property_cells(n);
    let l = label_section(n);
    let m = mig_section(n);
    let s = node_sheet_cells(n);
    lemma_node_sheet_places(n);
    assert forall|t: int| 0 <= t < l.len() implies s[24 + t] == #[trigger] l[t] by {
        assert((p + l)[24 + t] == l[t]);
    }
    assert forall|t: int| 0 <= t < m.len() implies s[24 + l.len() + t] == #[trigger] m[t] by {}
}

/// Below its properties, the "Node Info" sheet lists the node's labels in
/// key order under a header row 13 ("라벨", "값"): label `k` at row
/// `14 + k`, key in column 0 and value in column 1. After the labels and a
/// blank row come a "MIG 디바이스" header and the MIG devices, device `k` on
/// the `k`-th row after the header, profile in column 0 and count in
/// column 1. (Rows are those the sheet can number.)
pub proof fn lemma_node_info_sheet_lists_labels_and_mig(n: NodeView)
    ensures
        ({
            let cells = layout_sheet(node_report_view(n)[0]).cells;
            let after: int = if n.labels.len() == 0 {
                12
            } else {
                14 + n.labels.len() as int
            };
            &&& n.labels.len() > 0 ==> shows_text(cells, 13, 0, "라벨"@, CellStyle::Header) && shows_text(
                cells,
                13,
                1,
                "값"@,
                CellStyle::Header,
            )
            &&& forall|k: int|
                0 <= k < n.labels.len() && 14 + k < u32::MAX ==> shows_text(
                    cells,
                    (14 + k) as u32,
                    0,
                    (#[trigger] n.labels[k]).0,
                    CellStyle::Data,
                ) && shows_text(cells, (14 + k) as u32, 1, n.labels[k].1, CellStyle::Data)
            &&& n.mig_devices.len() > 0 && after + 1 < u32::MAX ==> shows_text(
                cells,
                (after + 1) as u32,
                0,
                "MIG 디바이스"@,
                CellStyle::Header,
            ) && shows_text(cells, (after + 1) as u32, 1, "개수"@, CellStyle::Header)
            &&& forall|k: int|
                0 <= k < n.mig_devices.len() && after + 2 + k < u32::MAX ==> shows_text(
                    cells,
                    (after + 2 + k) as u32,
                    0,
                    (#[trigger] n.mig_devices[k]).0,
                    CellStyle::Data,
                ) && shows_text(cells, (after + 2 + k) as u32, 1, n.mig_devices[k].1, CellStyle::Data)
        }),
{
    let s = node_sheet_cells(n);
    lemma_node_sheet_sections(n);
    assert(node_report_view(n)[0].cells == s);
    if n.labels.len() > 0 {
        lemma_label_header_shown(n, 0);
        lemma_label_header_shown(n, 1);
    }
    assert forall|k: int| 0 <= k < n.labels.len() && 14 + k < u32::MAX implies shows_text(
        written_cells(s),
        (14 + k) as u32,
        0,
        (#[trigger] n.labels[k]).0,
        CellStyle::Data,
    ) && shows_text(written_cells(s), (14 + k) as u32, 1, n.labels[k].1, CellStyle::Data) by {
        lemma_label_row_shown(n, k, 0);
        lemma_label_row_shown(n, k, 1);
    }
    if n.mig_devices.len() > 0 && labels_end(n) + 1 < u32::MAX {
        lemma_mig_header_shown(n, 0);
        lemma_mig_header_shown(n, 1);
    }
    assert forall|k: int| 0 <= k < n.mig_devices.len() && labels_end(n) + 2 + k < u32::MAX implies shows_text(
        written_cells(s),
        (labels_end(n) + 2 + k) as u32,
        0,
        (#[trigger] n.mig_devices[k]).0,
        CellStyle::Data,
    ) && shows_text(written_cells(s), (labels_end(n) + 2 + k) as u32, 1, n.mig_devices[k].1, CellStyle::Data) by {
        lemma_mig_row_shown(n, k, 0);
        lemma_mig_row_shown(n, k, 1);
    }
}

proof fn lemma_label_header_shown(n: NodeView, c: int)
    requires
        n.labels.len() > 0,
        0 <= c < 2,
    ensures
        shows_text(
            written_cells(node_sheet_cells(n)),
            13,
            c as u16,
            if c == 0 {
                "라벨"@
            } else {
                "값"@
            },
            CellStyle::Header,
        ),
{
    let s = node_sheet_cells(n);
    let l = label_section(n);
    let m = mig_section(n);
    let le = entry_cells(n.labels, 14);
    let after = labels_end(n);
    lemma_node_sheet_sections(n);
    lemma_entry_cells_index(n.labels, 14);
    lemma_entry_cells_index(n.mig_devices, after + 2);
    lemma_mig_rows(n);
    assert(s[24 + c] == l[c]);
    assert forall|j: int| 24 + c < j < s.len() implies cell_key(#[trigger] s[j]) != cell_key(s[24 + c]) by {
        if j < 24 + l.len() {
            assert(s[j] == l[j - 24]);
            if j >= 26 {
                assert(l[j - 24] == le[j - 26]);
                lemma_clamp_row(14, 14 + (j - 26) / 2);
            }
        } else {
            assert(s[j] == m[j - 24 - l.len()]);
            lemma_clamp_row(13, after + 1);
        }
    }
    lemma_written_cells_last(s, 24 + c);
}

/// Every MIG cell lies at or below the MIG header row.
proof fn lemma_mig_rows(n: NodeView)
    ensures
        forall|t: int|
            0 <= t < mig_section(n).len() ==> clamp_row(labels_end(n) + 1) <= (#[trigger] mig_section(n)[t]).row,
{
    let m = mig_section(n);
    let after = labels_end(n);
    let me = entry_cells(n.mig_devices, after + 2);
    lemma_node_sheet_sections(n);
    lemma_entry_cells_index(n.mig_devices, after + 2);
    assert forall|t: int| 0 <= t < m.len() implies clamp_row(after + 1) <= (#[trigger] m[t]).row by {
        if t >= 2 {
            assert(m[t] == me[t - 2]);
            lemma_clamp_row(after + 1, after + 2 + (t - 2) / 2);
        }
    }
}

proof fn lemma_label_row_shown(n: NodeView, k: int, c: int)
    requires
        0 <= k < n.labels.len(),
        14 + k < u32::MAX,
        0 <= c < 2,
    ensures
        shows_text(
            written_cells(node_sheet_cells(n)),
            (14 + k) as u32,
            c as u16,
            if c == 0 {
                n.labels[k].0
            } else {
                n.labels[k].1
            },
            CellStyle::Data,
        ),
{
    let s = node_sheet_cells(n);
    let l = label_section(n);
    let m = mig_section(n);
    let le = entry_cells(n.labels, 14);
    let after = labels_end(n);
    lemma_node_sheet_sections(n);
    lemma_entry_cells_index(n.labels, 14);
    lemma_mig_rows(n);
    lemma_clamp_row(14 + k, 14 + k);
    let i = 26 + 2 * k + c;
    assert((2 * k + c) / 2 == k && (2 * k + c) % 2 == c);
    assert(s[i] == l[i - 24]);
    assert(l[i - 24] == le[2 * k + c]);
    assert forall|j: int| i < j < s.len() implies cell_key(#[trigger] s[j]) != cell_key(s[i]) by {
        if j < 24 + l.len() {
            assert(s[j] == l[j - 24]);
            assert(l[j - 24] == le[j - 26]);
            if (j - 26) / 2 > k {
                lemma_clamp_row(14 + k, 14 + (j - 26) / 2);
            }
        } else {
            assert(s[j] == m[j - 24 - l.len()]);
            lemma_clamp_row(14 + k, after + 1);
        }
    }
    lemma_written_cells_last(s, i);
}

proof fn lemma_mig_header_shown(n: NodeView, c: int)
    requires
        n.mig_devices.len() > 0,
        labels_end(n) + 1 < u32::MAX,
        0 <= c < 2,
    ensures
        shows_text(
            written_cells(node_sheet_cells(n)),
            (labels_end(n) + 1) as u32,
            c as u16,
            if c == 0 {
                "MIG 디바이스"@
            } else {
                "개수"@
            },
            CellStyle::Header,
        ),
{
    let s = node_sheet_cells(n);
    let l = label_section(n);
    let m = mig_section(n);
    let after = labels_end(n);
    let me = entry_cells(n.mig_devices, after + 2);
    lemma_node_sheet_sections(n);
    lemma_entry_cells_index(n.mig_devices, after + 2);
    lemma_clamp_row(after + 1, after + 1);
    let b: int = 24 + l.len() as int;
    assert(s[b + c] == m[c]);
    assert forall|j: int| b + c < j < s.len() implies cell_key(#[trigger] s[j]) != cell_key(s[b + c]) by {
        assert(s[j] == m[j - b]);
        if j - b >= 2 {
            assert(m[j - b] == me[j - b - 2]);
            lemma_clamp_row(after + 1, after + 2 + (j - b - 2) / 2);
        }
    }
    lemma_written_cells_last(s, b + c);
}

proof fn lemma_mig_row_shown(n: NodeView, k: int, c: int)
    requires
        0 <= k < n.mig_devices.len(),
        labels_end(n) + 2 + k < u32::MAX,
        0 <= c < 2,
    ensures
        shows_text(
            written_cells(node_sheet_cells(n)),
            (labels_end(n) + 2 + k) as u32,
            c as u16,
            if c == 0 {
                n.mig_devices[k].0
            } else {
                n.mig_devices[k].1
            },
            CellStyle::Data,
        ),
{
    let s = node_sheet_cells(n);
    let l = label_section(n);
    let m = mig_section(n);
    let after = labels_end(n);
    let me = entry_cells(n.mig_devices, after + 2);
    lemma_node_sheet_sections(n);
    lemma_entry_cells_index(n.mig_devices, after + 2);
    lemma_clamp_row(after + 2 + k, after + 2 + k);
    let b: int = 24 + l.len() as int;
    let i = b + 2 + 2 * k + c;
    assert((2 * k + c) / 2 == k && (2 * k + c) % 2 == c);
    assert(s[i] == m[i - b]);
    assert(m[i - b] == me[2 * k + c]);
    assert forall|j: int| i < j < s.len() implies cell_key(#[trigger] s[j]) != cell_key(s[i]) by {
        assert(s[j] == m[j - b]);
        assert(m[j - b] == me[j - b - 2]);
        if (j - b - 2) / 2 > k {
            lemma_clamp_row(after + 2 + k, after + 2 + (j - b - 2) / 2);
        }
    }
    lemma_written_cells_last(s, i);
}

/// Writing `a` then `b` leaves what `b` wrote, and what `a` wrote elsewhere.
proof fn lemma_written_cells_append(a: Seq<SheetCellView>, b: Seq<SheetCellView>)
    ensures
        written_cells(a + b) == written_cells(a).union_prefer_right(written_cells(b)),
    decreases b.len(),
{
    if b.len() == 0 {
        assert(a + b =~= a);
        assert(written_cells(a).union_prefer_right(written_cells(b)) =~= written_cells(a));
    } else {
        lemma_written_cells_append(a, b.drop_last());
        assert((a + b).drop_last() =~= a + b.drop_last());
        assert((a + b).last() == b.last());
        assert(written_cells(a + b) =~= written_cells(a).union_prefer_right(written_cells(b)));
    }
}

/// Nothing is written at a place where no cell lies.
proof fn lemma_written_cells_absent(cells: Seq<SheetCellView>, key: (u32, u16))
    requires
        forall|i: int| 0 <= i < cells.len() ==> cell_key(#[trigger] cells[i]) != key,
    ensures
        !written_cells(cells).dom().contains(key),
    decreases cells.len(),
{
    if cells.len() > 0 {
        let t = cells.drop_last();
        assert forall|i: int| 0 <= i < t.len() implies cell_key(#[trigger] t[i]) != key by {
            assert(t[i] == cells[i]);
        }
        lemma_written_cells_absent(t, key);
        assert(cell_key(cells[cells.len() - 1]) != key);
    }
}

/// The four cells of a row, at columns 0 to 3 of that row, are what the
/// row writes.
proof fn lemma_row_of_four(cells: Seq<SheetCellView>, row: u32, c: int)
    requires
        cells.len() == 4,
        forall|i: int| 0 <= i < 4 ==> (#[trigger] cells[i]).row == row && cells[i].col == i,
        0 <= c < 4,
    ensures
        written_cells(cells).dom().contains((row, c as u16)),
        written_cells(cells)[(row, c as u16)] == (cells[c].content, style_format(cells[c].style)),
        forall|key: (u32, u16)| #[trigger] written_cells(cells).dom().contains(key) ==> key.0 == row,
{
    assert forall|j: int| c < j < cells.len() implies cell_key(#[trigger] cells[j]) != cell_key(cells[c]) by {}
    lemma_written_cells_last(cells, c);
    assert forall|key: (u32, u16)| #[trigger] written_cells(cells).dom().contains(key) implies key.0 == row by {
        if key.0 != row {
            assert forall|i: int| 0 <= i < cells.len() implies cell_key(#[trigger] cells[i]) != key by {}
            lemma_written_cells_absent(cells, key);
        }
    }
}

/// On the "Pods" sheet, pod `j` fills row `j + 1`: its name, namespace,
/// number of containers and labels, in columns 0 to 3.
proof fn lemma_pod_rows_written(pods: Seq<PodView>, j: int, c: int)
    requires
        0 <= j < pods.len(),
        j + 1 < u32::MAX,
        0 <= c < 4,
    ensures
        written_cells(pod_rows(pods)).dom().contains(((j + 1) as u32, c as u16)),
        written_cells(pod_rows(pods))[((j + 1) as u32, c as u16)] == ({
            let r = pod_row(pods[j], (j + 1) as u32)[c];
            (r.content, style_format(r.style))
        }),
    decreases pods.len(),
{
    let init = pods.drop_last();
    let last_row = clamp_row(pods.len() as int);
    let tail = pod_row(pods.last(), last_row);
    lemma_written_cells_append(pod_rows(init), tail);
    assert forall|i: int| 0 <= i < 4 implies (#[trigger] tail[i]).row == last_row && tail[i].col == i by {}
    lemma_row_of_four(tail, last_row, c);
    lemma_clamp_row(j + 1, pods.len() as int);
    if j < pods.len() - 1 {
        lemma_pod_rows_written(init, j, c);
        assert(init[j] == pods[j]);
        assert(!written_cells(tail).dom().contains(((j + 1) as u32, c as u16)));
    }
}

/// On the "Containers" sheet, container `c` of pod `p` (after `before`
/// container rows) fills row `before + c + 1`.
proof fn lemma_pod_container_rows_written(p: PodView, cs: Seq<ContainerView>, before: int, c: int, col: int)
    requires
        before >= 0,
        0 <= c < cs.len(),
        before + c + 1 < u32::MAX,
        0 <= col < 4,
    ensures
        written_cells(pod_container_rows(p, cs, before)).dom().contains(((before + c + 1) as u32, col as u16)),
        written_cells(pod_container_rows(p, cs, before))[((before + c + 1) as u32, col as u16)] == ({
            let r = container_row(p, cs[c], (before + c + 1) as u32)[col];
            (r.content, style_format(r.style))
        }),
    decreases cs.len(),
{
    let init = cs.drop_last();
    let last_row = clamp_row(before + cs.len());
    let tail = container_row(p, cs.last(), last_row);
    lemma_written_cells_append(pod_container_rows(p, init, before), tail);
    assert forall|i: int| 0 <= i < 4 implies (#[trigger] tail[i]).row == last_row && tail[i].col == i by {}
    lemma_row_of_four(tail, last_row, col);
    lemma_clamp_row(before + c + 1, before + cs.len());
    if c < cs.len() - 1 {
        lemma_pod_container_rows_written(p, init, before, c, col);
        assert(init[c] == cs[c]);
        assert(!written_cells(tail).dom().contains(((before + c + 1) as u32, col as u16)));
    }
}

/// Every row that the containers `cs` of a pod fill lies after `before`.
proof fn lemma_pod_container_rows_after(p: PodView, cs: Seq<ContainerView>, before: int, key: (u32, u16))
    requires
        key.0 <= before,
        key.0 < u32::MAX,
    ensures
        !written_cells(pod_container_rows(p, cs, before)).dom().contains(key),
    decreases cs.len(),
{
    if cs.len() > 0 {
        let init = cs.drop_last();
        let last_row = clamp_row(before + cs.len());
        let tail = container_row(p, cs.last(), last_row);
        lemma_written_cells_append(pod_container_rows(p, init, before), tail);
        lemma_pod_container_rows_after(p, init, before, key);
        lemma_clamp_row(key.0 as int, before + cs.len());
        assert forall|i: int| 0 <= i < tail.len() implies cell_key(#[trigger] tail[i]) != key by {}
        lemma_written_cells_absent(tail, key);
    }
}

proof fn lemma_containers_in_take(pods: Seq<PodView>, j: int)
    requires
        0 <= j < pods.len(),
    ensures
        containers_in(pods.take(j + 1)) == containers_in(pods.take(j)) + pods[j].containers.len(),
        containers_in(pods.take(j + 1)) <= containers_in(pods),
    decreases pods.len(),
{
    assert(pods.take(j + 1).drop_last() =~= pods.take(j));
    if j + 1 < pods.len() {
        lemma_containers_in_take(pods.drop_last(), j);
        assert(pods.drop_last().take(j + 1) =~= pods.take(j + 1));
        assert(pods.drop_last().take(j) =~= pods.take(j));
    } else {
        assert(pods.take(j + 1) =~= pods);
    }
}

/// Container `c` of pod `j` fills row `r` of the "Containers" sheet, `r`
/// being one more than the number of containers before it.
proof fn lemma_container_rows_written(pods: Seq<PodView>, j: int, c: int, col: int)
    requires
        0 <= j < pods.len(),
        0 <= c < pods[j].containers.len(),
        containers_in(pods.take(j)) + c + 1 < u32::MAX,
        0 <= col < 4,
    ensures
        ({
            let r = containers_in(pods.take(j)) + c + 1;
            &&& written_cells(container_rows(pods)).dom().contains((r as u32, col as u16))
            &&& written_cells(container_rows(pods))[(r as u32, col as u16)] == ({
                let x = container_row(pods[j], pods[j].containers[c], r as u32)[col];
                (x.content, style_format(x.style))
            })
        }),
    decreases pods.len(),
{
    let init = pods.drop_last();
    let before = containers_in(init) as int;
    let last = pods.last();
    let r = containers_in(pods.take(j)) + c + 1;
    lemma_written_cells_append(container_rows(init), pod_container_rows(last, last.containers, before));
    lemma_containers_in_take(pods, j);
    if j < pods.len() - 1 {
        assert(init.take(j) =~= pods.take(j));
        assert(init[j] == pods[j]);
        lemma_containers_in_take(init, j);
        assert(init.take(j + 1) =~= pods.take(j + 1));
        lemma_container_rows_written(init, j, c, col);
        lemma_pod_container_rows_after(last, last.containers, before, (r as u32, col as u16));
    } else {
        assert(pods.take(j) =~= init);
        lemma_pod_container_rows_written(last, last.containers, before, c, col);
    }
}

/// The "Pods" sheet of a node's report has a header row ("Pod 이름",
/// "네임스페이스", "Container 수", "라벨") and then one row per pod of the
/// node, in order: pod `j` at row `j + 1` with its name, its namespace, its
/// number of containers and its labels as `k=v` pairs. (Rows are those the
/// sheet can number.)
pub proof fn lemma_pods_sheet_shows_pods(n: NodeView)
    ensures
        node_report_view(n)[1].name == "Pods"@,
        ({
            let cells = layout_sheet(node_report_view(n)[1]).cells;
            &&& shows_text(cells, 0, 0, "Pod 이름"@, CellStyle::Header)
            &&& shows_text(cells, 0, 1, "네임스페이스"@, CellStyle::Header)
            &&& shows_text(cells, 0, 2, "Container 수"@, CellStyle::Header)
            &&& shows_text(cells, 0, 3, "라벨"@, CellStyle::Header)
            &&& forall|j: int|
                0 <= j < n.pods.len() && j + 1 < u32::MAX ==> {
                    let row = (j + 1) as u32;
                    let p = #[trigger] n.pods[j];
                    &&& shows_text(cells, row, 0, p.name, CellStyle::Data)
                    &&& shows_text(cells, row, 1, p.namespace, CellStyle::Data)
                    &&& cells.dom().contains((row, 2u16))
                    &&& cells[(row, 2u16)] == (
                        CellContent::Number(#[verifier::truncate] (p.containers.len() as u32)),
                        style_format(CellStyle::Data),
                    )
                    &&& shows_text(cells, row, 3, labels_text(p.labels), CellStyle::Data)
                }
        }),
{
    let ph = pod_header_cells();
    let pr = pod_rows(n.pods);
    lemma_written_cells_append(ph, pr);
    assert(node_report_view(n)[1].cells == ph + pr);
    assert forall|i: int| 0 <= i < 4 implies (#[trigger] ph[i]).row == 0 && ph[i].col == i by {}
    lemma_rows_start_at_one_pods(n.pods, (0u32, 0u16));
    lemma_rows_start_at_one_pods(n.pods, (0u32, 1u16));
    lemma_rows_start_at_one_pods(n.pods, (0u32, 2u16));
    lemma_rows_start_at_one_pods(n.pods, (0u32, 3u16));
    lemma_row_of_four(ph, 0, 0);
    lemma_row_of_four(ph, 0, 1);
    lemma_row_of_four(ph, 0, 2);
    lemma_row_of_four(ph, 0, 3);
    assert forall|j: int| 0 <= j < n.pods.len() && j + 1 < u32::MAX implies {
        let row = (j + 1) as u32;
        let p = #[trigger] n.pods[j];
        let cells = layout_sheet(node_report_view(n)[1]).cells;
        &&& shows_text(cells, row, 0, p.name, CellStyle::Data)
        &&& shows_text(cells, row, 1, p.namespace, CellStyle::Data)
        &&& cells.dom().contains((row, 2u16))
        &&& cells[(row, 2u16)] == (
            CellContent::Number(#[verifier::truncate] (p.containers.len() as u32)),
            style_format(CellStyle::Data),
        )
        &&& shows_text(cells, row, 3, labels_text(p.labels), CellStyle::Data)
    } by {
        lemma_pod_rows_written(n.pods, j, 0);
        lemma_pod_rows_written(n.pods, j, 1);
        lemma_pod_rows_written(n.pods, j, 2);
        lemma_pod_rows_written(n.pods, j, 3);
    }
}

/// The "Containers" sheet of a node's report has a header row ("Pod 이름",
/// "네임스페이스", "Container 이름", "이미지") and then one row per
/// container, pod after pod: container `c` of pod `j` at the row after all
/// containers before it, with its pod's name and namespace, its own name
/// and its image. (Rows are those the sheet can number.)
pub proof fn lemma_containers_sheet_shows_containers(n: NodeView)
    ensures
        node_report_view(n)[2].name == "Containers"@,
        shows_text(layout_sheet(node_report_view(n)[2]).cells, 0, 0, "Pod 이름"@, CellStyle::Header),
        shows_text(layout_sheet(node_report_view(n)[2]).cells, 0, 1, "네임스페이스"@, CellStyle::Header),
        shows_text(layout_sheet(node_report_view(n)[2]).cells, 0, 2, "Container 이름"@, CellStyle::Header),
        shows_text(layout_sheet(node_report_view(n)[2]).cells, 0, 3, "이미지"@, CellStyle::Header),
        forall|j: int, c: int|
            0 <= j < n.pods.len() && 0 <= c < n.pods[j].containers.len() && containers_in(n.pods.take(j)) + c + 1
                < u32::MAX ==> container_row_shown(
                layout_sheet(node_report_view(n)[2]).cells,
                (containers_in(n.pods.take(j)) + c + 1) as u32,
                n.pods[j],
                #[trigger] n.pods[j].containers[c],
            ),
{
    let ch = container_header_cells();
    let cr = container_rows(n.pods);
    lemma_written_cells_append(ch, cr);
    assert(node_report_view(n)[2].cells == ch + cr);
    assert forall|i: int| 0 <= i < 4 implies (#[trigger] ch[i]).row == 0 && ch[i].col == i by {}
    lemma_rows_start_at_one_containers(n.pods, (0u32, 0u16));
    lemma_rows_start_at_one_containers(n.pods, (0u32, 1u16));
    lemma_rows_start_at_one_containers(n.pods, (0u32, 2u16));
    lemma_rows_start_at_one_containers(n.pods, (0u32, 3u16));
    lemma_row_of_four(ch, 0, 0);
    lemma_row_of_four(ch, 0, 1);
    lemma_row_of_four(ch, 0, 2);
    lemma_row_of_four(ch, 0, 3);
    assert forall|j: int, c: int|
        0 <= j < n.pods.len() && 0 <= c < n.pods[j].containers.len() && containers_in(n.pods.take(j)) + c + 1
            < u32::MAX implies container_row_shown(
        layout_sheet(node_report_view(n)[2]).cells,
        (containers_in(n.pods.take(j)) + c + 1) as u32,
        n.pods[j],
        #[trigger] n.pods[j].containers[c],
    ) by {
        lemma_container_rows_written(n.pods, j, c, 0);
        lemma_container_rows_written(n.pods, j, c, 1);
        lemma_container_rows_written(n.pods, j, c, 2);
        lemma_container_rows_written(n.pods, j, c, 3);
    }
}

/// Row `row` of `cells` shows the name and namespace of pod `p`, then the
/// name and image of its container `x`.
pub open spec fn container_row_shown(
    cells: Map<(u32, u16), (CellContent, FormatModel)>,
    row: u32,
    p: PodView,
    x: ContainerView,
) -> bool {
    &&& shows_text(cells, row, 0, p.name, CellStyle::Data)
    &&& shows_text(cells, row, 1, p.namespace, CellStyle::Data)
    &&& shows_text(cells, row, 2, x.name, CellStyle::Data)
    &&& shows_text(cells, row, 3, x.image, CellStyle::Data)
}

/// No pod row lies at row 0.
proof fn lemma_rows_start_at_one_pods(pods: Seq<PodView>, key: (u32, u16))
    requires
        key.0 == 0,
    ensures
        !written_cells(pod_rows(pods)).dom().contains(key),
    decreases pods.len(),
{
    if pods.len() > 0 {
        let init = pods.drop_last();
        let tail = pod_row(pods.last(), clamp_row(pods.len() as int));
        lemma_written_cells_append(pod_rows(init), tail);
        lemma_rows_start_at_one_pods(init, key);
        lemma_clamp_row(1, pods.len() as int);
        assert forall|i: int| 0 <= i < tail.len() implies cell_key(#[trigger] tail[i]) != key by {}
        lemma_written_cells_absent(tail, key);
    }
}

/// No container row lies at row 0.
proof fn lemma_rows_start_at_one_containers(pods: Seq<PodView>, key: (u32, u16))
    requires
        key.0 == 0,
    ensures
        !written_cells(container_rows(pods)).dom().contains(key),
    decreases pods.len(),
{
    if pods.len() > 0 {
        let init = pods.drop_last();
        let last = pods.last();
        lemma_written_cells_append(container_rows(init), pod_container_rows(last, last.containers, containers_in(init) as int));
        lemma_rows_start_at_one_containers(init, key);
        lemma_pod_container_rows_after(last, last.containers, containers_in(init) as int, key);
    }
}

} // verus!
