use memory_cleaner::notification::{announce_cleanup_result, escape_xml, toast_xml};

#[test]
fn escape_xml_escapes_special_chars() {
    assert_eq!(escape_xml("a & b"), "a &amp; b");
    assert_eq!(escape_xml("<tag>"), "&lt;tag&gt;");
}

#[test]
fn escape_xml_handles_quotes() {
    assert_eq!(escape_xml("\"it's\""), "&quot;it&apos;s&quot;");
    assert_eq!(escape_xml("plain 文本"), "plain 文本");
}

#[test]
fn toast_xml_escapes_both_lines() {
    assert_eq!(
        toast_xml("Done & dusted", "<1 GB>"),
        "<toast><visual><binding template=\"ToastText02\"><text id=\"1\">Done &amp; dusted</text><text id=\"2\">&lt;1 GB&gt;</text></binding></visual></toast>"
    );
}

#[test]
fn only_real_results_are_announced() {
    assert!(announce_cleanup_result(true, "Completed (1 items)", "Select areas"));
    assert!(!announce_cleanup_result(false, "Completed (1 items)", "Select areas"));
    assert!(!announce_cleanup_result(true, "", "Select areas"));
    assert!(!announce_cleanup_result(true, "Select areas", "Select areas"));
}
