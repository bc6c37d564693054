use mfmarine::mf::MFparser;
use mfmarine::mf_config::MFConfig;
use mfmarine::timefmt::Timestamp;

fn parser(zone: u8) -> MFparser {
    MFparser::new(MFConfig {
        bmspath: String::from("/data/bms"),
        bmrpath: String::from("/data/bmr"),
        region: 1,
        zone,
        want_bmr: true,
        pretty: false,
        run_every: String::from("PT1H"),
    })
}

fn ts(year: u32, month: u32, day: u32, hour: u32, minute: u32) -> Timestamp {
    Timestamp { year, month, day, hour, minute }
}

#[test]
fn raw_filename_has_minute_precision_and_upper_cased_kind() {
    let p = parser(4);
    let name = p.raw_filename("bms", "json", &ts(2024, 3, 7, 9, 5));
    assert_eq!(name, "BMS_zone4_2024_03_07_09_05.json");
}

#[test]
fn pretty_filename_has_hour_precision() {
    let p = parser(4);
    let name = p.pretty_filename("bmr", &ts(2024, 12, 31, 23, 59));
    assert_eq!(name, "BMR_pretty_zone4_2024_12_31_23.txt");
}

#[test]
fn raw_filenames_collide_within_one_minute_and_differ_across() {
    let p = parser(2);
    let a = p.raw_filename("BMR", "xml", &ts(2024, 3, 7, 9, 5));
    let b = p.raw_filename("BMR", "xml", &ts(2024, 3, 7, 9, 5));
    let c = p.raw_filename("BMR", "xml", &ts(2024, 3, 7, 9, 6));
    assert_eq!(a, b);
    assert_ne!(a, c);
}

#[test]
fn pretty_filenames_collide_within_one_hour_and_differ_across() {
    let p = parser(2);
    let a = p.pretty_filename("BMS", &ts(2024, 3, 7, 9, 5));
    let b = p.pretty_filename("BMS", &ts(2024, 3, 7, 9, 42));
    let c = p.pretty_filename("BMS", &ts(2024, 3, 7, 10, 5));
    assert_eq!(a, b);
    assert_ne!(a, c);
}

#[test]
fn report_urls_encode_region_and_zone_with_a_leading_zero() {
    let p = parser(4);
    assert_eq!(
        p.bms_url(),
        "https://rpcache-aa.meteofrance.com/internet2018client/2.0/report?\
         domain=BMSCOTE-01-04&report_type=marine&report_subtype=BMS_cote_fr&format=json"
    );
    assert_eq!(
        p.bmr_url(),
        "https://rpcache-aa.meteofrance.com/internet2018client/2.0/report?\
         domain=BMRCOTE-01-04&report_type=marine&report_subtype=BMR_cote_fr&format=xml"
    );
}

#[test]
fn secondary_request_is_planned_only_when_wanted() {
    let mut wanted = parser(4);
    assert!(wanted.config.want_bmr);
    let (_, bms, bmr) = wanted.request_plan();
    assert_eq!(bms, wanted.bms_url());
    assert_eq!(bmr.as_deref(), Some(wanted.bmr_url().as_str()));

    wanted.config.want_bmr = false;
    let (_, _, none) = wanted.request_plan();
    assert_eq!(none, None);
}

#[test]
fn landing_url_is_fixed() {
    let p = parser(1);
    assert_eq!(
        p.landing_url(),
        "https://meteofrance.com/meteo-marine/penmarc-h-anse-de-l-aiguillon/BMSCOTE-01-04"
    );
}
