use k8s_node_server::dummy_data::generate_dummy_clusters;
use rust_xlsxwriter::{Color, Format, FormatBorder};
use k8s_node_server::excel::{
    build_node_workbook, data_format, generate_node_excel, header_format, labels_string, node_report, render_sheet, CellStyle,
    CellValue, ColumnWidth, ExcelError, SheetCell, SheetLayout,
};
use k8s_node_server::model::NodeInfo;
use k8s_node_server::string_map::StringMap;

fn text_at(layout: &SheetLayout, row: u32, col: u16) -> Option<(String, CellStyle)> {
    layout.cells.iter().rev().find(|c| c.row == row && c.col == col).map(|c| match &c.value {
        CellValue::Text(t) => (t.clone(), c.style),
        CellValue::Number(n) => (n.to_string(), c.style),
    })
}

fn sample_node() -> NodeInfo {
    generate_dummy_clusters().remove(0).nodes.remove(0)
}

fn empty_node(labels: StringMap, mig: StringMap) -> NodeInfo {
    NodeInfo {
        name: "n".to_string(),
        cluster_name: "c".to_string(),
        os_image: "o".to_string(),
        kubelet_version: "k".to_string(),
        architecture: "a".to_string(),
        capacity_cpu: "1".to_string(),
        capacity_memory: "2".to_string(),
        gpu_model: "N/A".to_string(),
        gpu_count: "0".to_string(),
        pod_count: 0,
        container_count: 0,
        labels,
        mig_devices: mig,
        pods: vec![],
    }
}

#[test]
fn node_info_sheet_layout() {
    let report = node_report(&sample_node());
    assert_eq!(report.len(), 3);
    let info = &report[0];
    assert_eq!(info.name, "Node Info");
    assert_eq!(text_at(info, 0, 0), Some(("항목".to_string(), CellStyle::Header)));
    assert_eq!(text_at(info, 1, 1), Some(("gpu-node-01".to_string(), CellStyle::Data)));
    assert_eq!(text_at(info, 10, 0), Some(("Pod 수".to_string(), CellStyle::Data)));
    assert_eq!(text_at(info, 10, 1), Some(("12".to_string(), CellStyle::Data)));
    assert_eq!(text_at(info, 11, 1), Some(("28".to_string(), CellStyle::Data)));
    assert_eq!(text_at(info, 12, 0), None);
    assert_eq!(text_at(info, 13, 0), Some(("라벨".to_string(), CellStyle::Header)));
    assert_eq!(text_at(info, 14, 0), Some(("kubernetes.io/arch".to_string(), CellStyle::Data)));
    // six labels on rows 14..=19, a blank row, then the MIG section
    assert_eq!(text_at(info, 19, 0), Some(("topology.kubernetes.io/zone".to_string(), CellStyle::Data)));
    assert_eq!(text_at(info, 20, 0), None);
    assert_eq!(text_at(info, 21, 0), Some(("MIG 디바이스".to_string(), CellStyle::Header)));
    assert_eq!(text_at(info, 21, 1), Some(("개수".to_string(), CellStyle::Header)));
    assert_eq!(text_at(info, 22, 0), Some(("1g.10gb".to_string(), CellStyle::Data)));
    assert_eq!(text_at(info, 24, 1), Some(("1".to_string(), CellStyle::Data)));
    assert_eq!(info.cells.len(), 24 + 2 + 12 + 2 + 6);
    let widths: Vec<(u16, u32)> = info.widths.iter().map(|w| (w.col, w.width)).collect();
    assert_eq!(widths, vec![(0, 20), (1, 30)]);
}

#[test]
fn mig_section_without_labels_starts_at_row_13() {
    let mut mig = StringMap::new();
    mig.insert("1g.5gb".to_string(), "2".to_string());
    let report = node_report(&empty_node(StringMap::new(), mig));
    let info = &report[0];
    assert_eq!(text_at(info, 13, 0), Some(("MIG 디바이스".to_string(), CellStyle::Header)));
    assert_eq!(text_at(info, 14, 0), Some(("1g.5gb".to_string(), CellStyle::Data)));
    assert_eq!(info.cells.len(), 24 + 4);
}

#[test]
fn node_without_labels_or_mig_has_only_properties() {
    let report = node_report(&empty_node(StringMap::new(), StringMap::new()));
    assert_eq!(report[0].cells.len(), 24);
    assert_eq!(report[1].cells.len(), 4);
    assert_eq!(report[2].cells.len(), 4);
}

#[test]
fn pods_and_containers_sheets() {
    let report = node_report(&sample_node());
    let pods = &report[1];
    assert_eq!(pods.name, "Pods");
    assert_eq!(text_at(pods, 0, 3), Some(("라벨".to_string(), CellStyle::Header)));
    assert_eq!(text_at(pods, 1, 0), Some(("ml-training-job-7f8g9h".to_string(), CellStyle::Data)));
    assert!(pods
        .cells
        .iter()
        .any(|c| c.row == 1 && c.col == 2 && matches!(c.value, CellValue::Number(2))));
    assert_eq!(
        text_at(pods, 1, 3),
        Some(("app=pytorch-training, tier=compute, version=v2.1.0".to_string(), CellStyle::Data))
    );
    assert_eq!(text_at(pods, 2, 1), Some(("inference".to_string(), CellStyle::Data)));
    let widths: Vec<(u16, u32)> = pods.widths.iter().map(|w| (w.col, w.width)).collect();
    assert_eq!(widths, vec![(0, 30), (1, 20), (2, 15), (3, 50)]);
    let cs = &report[2];
    assert_eq!(cs.name, "Containers");
    assert_eq!(text_at(cs, 1, 2), Some(("pytorch-trainer".to_string(), CellStyle::Data)));
    assert_eq!(text_at(cs, 2, 2), Some(("data-loader".to_string(), CellStyle::Data)));
    assert_eq!(text_at(cs, 3, 0), Some(("inference-server-a1b2c3".to_string(), CellStyle::Data)));
    assert_eq!(text_at(cs, 3, 3), Some(("nvcr.io/nvidia/tritonserver:23.04-py3".to_string(), CellStyle::Data)));
    assert_eq!(text_at(cs, 4, 0), None);
    let widths: Vec<(u16, u32)> = cs.widths.iter().map(|w| (w.col, w.width)).collect();
    assert_eq!(widths, vec![(0, 30), (1, 20), (2, 25), (3, 60)]);
}

#[test]
fn labels_string_joins_pairs() {
    let mut m = StringMap::new();
    assert_eq!(labels_string(&m), "");
    m.insert("b".to_string(), "2".to_string());
    assert_eq!(labels_string(&m), "b=2");
    m.insert("a".to_string(), "1".to_string());
    assert_eq!(labels_string(&m), "a=1, b=2");
}

#[test]
fn excel_file_is_produced() {
    let bytes = generate_node_excel(&sample_node()).expect("report");
    assert!(bytes.len() > 100);
    assert_eq!(&bytes[0..2], b"PK");
}

#[test]
fn too_long_text_is_refused() {
    let mut node = empty_node(StringMap::new(), StringMap::new());
    node.os_image = "x".repeat(32768);
    assert_eq!(generate_node_excel(&node), Err(ExcelError::TextTooLong));
    node.os_image = "x".repeat(32767);
    assert!(generate_node_excel(&node).is_ok());
}

fn layout(name: &str, row: u32, col: u16, text: &str) -> SheetLayout {
    SheetLayout {
        name: name.to_string(),
        cells: vec![SheetCell { row, col, value: CellValue::Text(text.to_string()), style: CellStyle::Data }],
        widths: vec![ColumnWidth { col: 0, width: 10 }],
    }
}

#[test]
fn render_sheet_errors() {
    let h = header_format();
    let d = data_format();
    assert!(render_sheet(&layout("ok", 1048575, 16383, "x"), &h, &d).is_ok());
    assert_eq!(render_sheet(&layout("ok", 1048576, 0, "x"), &h, &d).err(), Some(ExcelError::RowColumnLimit));
    assert_eq!(render_sheet(&layout("ok", 0, 16384, "x"), &h, &d).err(), Some(ExcelError::RowColumnLimit));
    assert_eq!(render_sheet(&layout("a/b", 0, 0, "x"), &h, &d).err(), Some(ExcelError::SheetName));
    assert_eq!(render_sheet(&layout("", 0, 0, "x"), &h, &d).err(), Some(ExcelError::SheetName));
    assert_eq!(render_sheet(&layout("'q", 0, 0, "x"), &h, &d).err(), Some(ExcelError::SheetName));
    assert_eq!(
        render_sheet(&layout(&"n".repeat(32), 0, 0, "x"), &h, &d).err(),
        Some(ExcelError::SheetName)
    );
    let mut wide = layout("ok", 0, 0, "x");
    wide.widths.push(ColumnWidth { col: 16384, width: 5 });
    assert_eq!(render_sheet(&wide, &h, &d).err(), Some(ExcelError::RowColumnLimit));
    // an emoji takes two UTF-16 units
    assert_eq!(render_sheet(&layout("ok", 0, 0, &"😀".repeat(16384)), &h, &d).err(), Some(ExcelError::TextTooLong));
    assert!(render_sheet(&layout("ok", 0, 0, &"😀".repeat(16383)), &h, &d).is_ok());
}

#[test]
fn formats_of_header_and_data_cells() {
    let header = Format::new().set_bold().set_background_color(Color::RGB(0xD3D3D3)).set_border(FormatBorder::Thin);
    let data = Format::new().set_border(FormatBorder::Thin);
    assert!(header_format() == header);
    assert!(data_format() == data);
    assert!(data_format() != Format::new());
    assert!(header_format() != data);
}

#[test]
fn workbook_has_the_three_sheets_in_order() {
    let mut wb = build_node_workbook(&sample_node()).ok().expect("workbook");
    let names: Vec<String> = wb.worksheets().iter().map(|w| w.name()).collect();
    assert_eq!(names, vec!["Node Info".to_string(), "Pods".to_string(), "Containers".to_string()]);
}

#[test]
fn render_sheet_takes_the_widest_column() {
    let mut l = layout("ok", 0, 0, "x");
    l.widths.push(ColumnWidth { col: 1, width: 255 });
    assert!(render_sheet(&l, &header_format(), &data_format()).is_ok());
}
