use mfmarine::errors::MfError;
use mfmarine::mf::MFparser;
use mfmarine::mf_config::MFConfig;
use mfmarine::timefmt::Timestamp;

fn config(want_bmr: bool, pretty: bool) -> MFConfig {
    MFConfig {
        bmspath: String::from("/data/bms"),
        bmrpath: String::from("/data/bmr"),
        region: 2,
        zone: 3,
        want_bmr,
        pretty,
        run_every: String::from("PT30M"),
    }
}

fn ts() -> Timestamp {
    Timestamp { year: 2024, month: 6, day: 1, hour: 12, minute: 30 }
}

#[test]
fn unwanted_secondary_report_is_never_written() {
    let p = MFparser::new(config(false, false));
    let bmr_body = Some(String::from("<echeance><![CDATA[storm]]></echeance>"));
    let (arts, failure) = p.plan_cycle("{\"any\":1}", &bmr_body, &ts());
    assert_eq!(failure, None);
    assert_eq!(arts.len(), 1);
    assert_eq!(arts[0].dir, "/data/bms");
    assert!(arts[0].filename.starts_with("BMS_"));
}

#[test]
fn wanted_secondary_report_is_written_first() {
    let p = MFparser::new(config(true, false));
    let bmr_body = Some(String::from("<xml bmr/>"));
    let (arts, failure) = p.plan_cycle("{\"bms\":1}", &bmr_body, &ts());
    assert_eq!(failure, None);
    assert_eq!(arts.len(), 2);
    assert_eq!(arts[0].dir, "/data/bmr");
    assert_eq!(arts[0].filename, "BMR_zone3_2024_06_01_12_30.xml");
    assert_eq!(arts[0].content, "<xml bmr/>");
    assert_eq!(arts[1].dir, "/data/bms");
    assert_eq!(arts[1].filename, "BMS_zone3_2024_06_01_12_30.json");
    assert_eq!(arts[1].content, "{\"bms\":1}");
}

#[test]
fn wanted_secondary_report_without_body_writes_only_the_primary() {
    let p = MFparser::new(config(true, false));
    let (arts, failure) = p.plan_cycle("body", &None, &ts());
    assert_eq!(failure, None);
    assert_eq!(arts.len(), 1);
    assert_eq!(arts[0].dir, "/data/bms");
}

#[test]
fn empty_primary_body_still_writes_a_raw_artifact() {
    let p = MFparser::new(config(false, false));
    let (arts, failure) = p.plan_cycle("", &None, &ts());
    assert_eq!(failure, None);
    assert_eq!(arts.len(), 1);
    assert_eq!(arts[0].dir, "/data/bms");
    assert_eq!(arts[0].filename, "BMS_zone3_2024_06_01_12_30.json");
    assert_eq!(arts[0].content, "");
}

#[test]
fn empty_primary_body_fails_pretty_rendering() {
    let p = MFparser::new(config(false, true));
    let (arts, failure) = p.plan_cycle("", &None, &ts());
    assert_eq!(failure, Some(MfError::MalformedContent));
    assert_eq!(arts.len(), 0);
}

#[test]
fn pretty_cycle_renders_both_documents() {
    let p = MFparser::new(config(true, true));
    let bmr_body = Some(String::from(
        "<echeance><![CDATA[high tide]]></echeance><echeance><![CDATA[low tide]]></echeance>",
    ));
    let bms_body = "{\"report_title\":\"Bulletin\",\
                    \"text_bloc_item\":[\
                      {\"text_items\":[{\"title\":\"warning\"}]},\
                      {\"bloc_title\":\"sea\",\"text_items\":[{\"text\":\"calm\"}]}\
                    ]}";
    let (arts, failure) = p.plan_cycle(bms_body, &bmr_body, &ts());
    assert_eq!(failure, None);
    assert_eq!(arts.len(), 2);
    assert_eq!(arts[0].filename, "BMR_pretty_zone3_2024_06_01_12.txt");
    assert_eq!(arts[0].content, "high tide\n\nlow tide");
    assert_eq!(arts[1].filename, "BMS_pretty_zone3_2024_06_01_12.txt");
    assert_eq!(arts[1].content, "Bulletin\n\nwarning\n\n\nSEA\n\ncalm\n\n");
}

#[test]
fn malformed_secondary_report_aborts_the_rest_of_the_cycle() {
    let p = MFparser::new(config(true, true));
    let bmr_body = Some(String::from("<echeance><![CDATA[no close"));
    let (arts, failure) = p.plan_cycle("ignored", &bmr_body, &ts());
    assert_eq!(failure, Some(MfError::MalformedContent));
    assert_eq!(arts.len(), 0);
}

#[test]
fn malformed_primary_report_fails_with_nothing_else_planned() {
    let p = MFparser::new(config(false, true));
    let (arts, failure) = p.plan_cycle("not json", &None, &ts());
    assert_eq!(failure, Some(MfError::MalformedContent));
    assert_eq!(arts.len(), 0);
}

#[test]
fn secondary_artifact_survives_a_primary_failure() {
    let p = MFparser::new(config(true, true));
    let bmr_body = Some(String::from("<echeance><![CDATA[gale warning]]></echeance>"));
    let (arts, failure) = p.plan_cycle("not json", &bmr_body, &ts());
    assert_eq!(failure, Some(MfError::MalformedContent));
    assert_eq!(arts.len(), 1);
    assert_eq!(arts[0].dir, "/data/bmr");
    assert_eq!(arts[0].content, "gale warning");
}

#[test]
fn error_messages_describe_each_kind() {
    assert_eq!(
        MfError::MissingMarker.message(),
        "session cookie lacks the mfsession= marker"
    );
    assert_eq!(
        MfError::FetchError(String::from("status 500")).message(),
        "fetch failed: status 500"
    );
    assert_eq!(
        MfError::WriteError(String::from("disk full")).message(),
        "write failed: disk full"
    );
    assert_eq!(
        MfError::NoCookieHeader.message(),
        "the landing page set no cookie header"
    );
    assert_eq!(
        MfError::MissingDelimiter.message(),
        "no delimiter after the session token"
    );
    assert_eq!(
        MfError::MalformedContent.message(),
        "report content does not have the expected shape"
    );
}

#[test]
fn the_clock_yields_a_calendar_timestamp() {
    let t = mfmarine::timefmt::now_timestamp();
    assert!(t.year >= 2024 && t.year <= 9999);
    assert!(t.month >= 1 && t.month <= 12);
    assert!(t.day >= 1 && t.day <= 31);
    assert!(t.hour <= 23);
    assert!(t.minute <= 59);
}
