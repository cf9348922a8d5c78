use bmsfix::chart::{Chart, ChartMethods};
use bmsfix::lines::split_content;

fn minimum_content() -> String {
    [
        "*---------------------- HEADER FIELD",
        "",
        "#PLAYER 1",
        "#GENRE test",
        "#TITLE minimum",
        "#ARTIST nobody",
        "#BPM 120",
        "#PLAYLEVEL 1",
        "#RANK 2",
        "",
        "*---------------------- MAIN DATA FIELD",
        "",
        "#00011:01",
    ]
    .join("\n")
        + "\n"
}

fn corrupt_content() -> String {
    let mut lines: Vec<String> = Vec::new();
    for i in 0..16 {
        lines.push(format!("#TEXT line {}", i));
    }
    // line index 16 carries the channel-02 defect: a 12-character value
    lines.push("#00002:0.9997333333".to_string());
    lines.join("\n") + "\n"
}

#[test]
fn read_minimum_ok() {
    let testpath = "resources/test/minimum.bms";

    let mut chart = Chart::default();
    assert!(chart.read(testpath, Ok(minimum_content())).is_ok());
    assert_eq!(testpath, chart.path);
}

#[test]
fn read_err_notexist() {
    let testpath = "resources/test/no_such_file.bms";

    let mut chart = Chart::default();
    let missing = Err("No such file or directory (os error 2)".to_string());
    assert!(chart.read(testpath, missing).is_err());
}

#[test]
fn fix_ok() {
    let testpath = "resources/test/corrupt.bms";
    let mut chart = Chart::default();
    assert!(chart.read(testpath, Ok(corrupt_content())).is_ok());

    chart.set_verbose(1);
    let r = chart.fix();
    assert!(r.is_ok());
    assert!(chart.is_modified());
    assert_eq!("#00002:0.99973333", chart.lines[16]);
}

#[test]
fn fix_ok_nochange() {
    let testpath = "resources/test/minimum.bms";
    let mut chart = Chart::default();
    assert!(chart.read(testpath, Ok(minimum_content())).is_ok());

    chart.set_verbose(1);
    let r = chart.fix();
    assert!(r.is_ok());
    assert!(!chart.is_modified());
}

#[test]
fn save_ok() {
    let testpath = "resources/test/minimum.bms";
    let mut chart = Chart::default();
    assert!(chart.read(testpath, Ok(minimum_content())).is_ok());

    let testoutpath = "resources/test/test_output.bms";

    // saving yields the text a writer would persist
    let out = chart.save();

    // reading that text back gives the same lines
    let mut chart2 = Chart::default();
    assert!(chart2.read(testoutpath, Ok(out)).is_ok());
    assert_eq!(chart.lines.len(), chart2.lines.len());
    assert_eq!(chart.lines[10], chart2.lines[10]);
}

#[test]
fn read_replaces_all_content() {
    let mut chart = Chart::default();
    assert!(chart.read("a.bms", Ok("one\ntwo\n".to_string())).is_ok());
    assert_eq!(vec!["one".to_string(), "two".to_string()], chart.lines);
    assert_eq!("a.bms", chart.path);

    assert!(chart.read("b.bms", Ok("three\n".to_string())).is_ok());
    assert_eq!(vec!["three".to_string()], chart.lines);
    assert_eq!("b.bms", chart.path);
    assert!(!chart.is_modified());
}

#[test]
fn read_error_leaves_defaults() {
    let mut chart = Chart::default();
    let r = chart.read("gone.bms", Err("permission denied".to_string()));
    assert_eq!(Err("permission denied".to_string()), r);
    assert!(chart.lines.is_empty());
    assert_eq!("", chart.path);
    assert!(!chart.is_modified());
    assert_eq!(0, chart.verbose);
    assert_eq!("", chart.title);
}

#[test]
fn read_strips_line_endings() {
    let mut chart = Chart::default();
    assert!(chart.read("crlf.bms", Ok("a\r\nb\nc".to_string())).is_ok());
    assert_eq!(vec!["a".to_string(), "b".to_string(), "c".to_string()], chart.lines);
}

#[test]
fn save_normalizes_newlines() {
    let mut chart = Chart::default();
    assert!(chart.read("crlf.bms", Ok("a\r\nb".to_string())).is_ok());
    assert_eq!("a\nb\n", chart.save());
}

#[test]
fn save_empty_chart_is_empty() {
    let chart = Chart::default();
    assert_eq!("", chart.save());
}

#[test]
fn round_trip_preserves_lines() {
    let content = "#TITLE x\n#00302:012345\npayload\n".to_string();
    let mut chart = Chart::default();
    assert!(chart.read("in.bms", Ok(content.clone())).is_ok());
    let out = chart.save();
    assert_eq!(content, out);
    assert_eq!(split_content(&content), split_content(&out));
}
