use mfmarine::errors::MfError;
use mfmarine::format::pretty_json;
use mfmarine::format::pretty_xml;

#[test]
fn two_sections_with_one_cdata_block_each() {
    let doc = "<echeance a=\"1\"><![CDATA[text1]]></echeance>\
               <echeance a=\"2\"><![CDATA[text2]]></echeance>";
    assert_eq!(pretty_xml(doc).unwrap(), "text1\n\ntext2");
}

#[test]
fn preamble_before_the_first_section_is_dropped() {
    let doc = "<?xml version=\"1.0\"?><bulletin><echeance><![CDATA[alpha]]></echeance></bulletin>";
    assert_eq!(pretty_xml(doc).unwrap(), "alpha");
}

#[test]
fn cdata_blocks_within_one_section_are_joined_by_newlines() {
    let doc = "<echeance><![CDATA[a]]><x/><![CDATA[b]]></echeance>";
    assert_eq!(pretty_xml(doc).unwrap(), "a\nb");
}

#[test]
fn section_without_cdata_renders_empty() {
    let doc = "<echeance first/><echeance><![CDATA[t]]></echeance>";
    assert_eq!(pretty_xml(doc).unwrap(), "\n\nt");
}

#[test]
fn document_without_sections_renders_empty() {
    assert_eq!(pretty_xml("<bulletin>nothing here</bulletin>").unwrap(), "");
}

#[test]
fn terminated_cdata_in_the_preamble_is_checked_but_not_rendered() {
    let doc = "<![CDATA[preamble]]><echeance><![CDATA[body]]></echeance>";
    assert_eq!(pretty_xml(doc).unwrap(), "body");
}

#[test]
fn unterminated_cdata_in_the_preamble_is_malformed() {
    let doc = "x<![CDATA[oops<echeance><![CDATA[t]]></echeance>";
    assert_eq!(pretty_xml(doc), Err(MfError::MalformedContent));
}

#[test]
fn unterminated_cdata_block_is_malformed() {
    let doc = "<echeance><![CDATA[text1]]></echeance><echeance><![CDATA[no close";
    assert_eq!(pretty_xml(doc), Err(MfError::MalformedContent));
}

fn sample_report() -> String {
    String::from(
        "{\"report_title\":\"Marine bulletin\",\
          \"text_bloc_item\":[\
            {\"text_items\":[{\"title\":\"First warning\"},{\"title\":\"Second warning\"}]},\
            {\"bloc_title\":\"observed weather\",\
             \"text_items\":[{\"text\":\"calm sea\"},{\"text\":\"light breeze\"}]}\
          ]}",
    )
}

#[test]
fn well_formed_report_renders_in_order() {
    let expected = "Marine bulletin\n\n\
                    First warning\nSecond warning\n\n\n\
                    OBSERVED WEATHER\n\n\
                    calm sea\nlight breeze\n\n";
    assert_eq!(pretty_json(&sample_report()).unwrap(), expected);
}

#[test]
fn heading_uppercasing_handles_accents() {
    let doc = "{\"report_title\":\"t\",\
               \"text_bloc_item\":[\
                 {\"text_items\":[]},\
                 {\"bloc_title\":\"m\u{e9}t\u{e9}o\",\"text_items\":[{\"text\":\"x\"}]}\
               ]}";
    let out = pretty_json(doc).unwrap();
    assert_eq!(out, "t\n\n\n\n\nM\u{c9}T\u{c9}O\n\nx\n\n");
}

#[test]
fn unparseable_document_is_malformed() {
    assert_eq!(pretty_json("not json at all"), Err(MfError::MalformedContent));
    assert_eq!(pretty_json(""), Err(MfError::MalformedContent));
}

#[test]
fn missing_text_bloc_item_array_is_malformed() {
    let doc = "{\"report_title\":\"t\"}";
    assert_eq!(pretty_json(doc), Err(MfError::MalformedContent));
}

#[test]
fn too_short_text_bloc_item_array_is_malformed() {
    let doc = "{\"report_title\":\"t\",\"text_bloc_item\":[{\"text_items\":[]}]}";
    assert_eq!(pretty_json(doc), Err(MfError::MalformedContent));
}

#[test]
fn missing_report_title_is_malformed() {
    let doc = "{\"text_bloc_item\":[{\"text_items\":[]},\
               {\"bloc_title\":\"h\",\"text_items\":[]}]}";
    assert_eq!(pretty_json(doc), Err(MfError::MalformedContent));
}

#[test]
fn non_string_item_field_is_malformed() {
    let doc = "{\"report_title\":\"t\",\
               \"text_bloc_item\":[\
                 {\"text_items\":[{\"title\":7}]},\
                 {\"bloc_title\":\"h\",\"text_items\":[]}\
               ]}";
    assert_eq!(pretty_json(doc), Err(MfError::MalformedContent));
}
