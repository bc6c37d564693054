use vstd::prelude::*;

use crate::errors::MfError;
use crate::format::spec_pretty_json;
use crate::format::spec_pretty_xml;
use crate::format::pretty_json;
use crate::format::pretty_xml;
use crate::mf_config::MFConfig;
use crate::strutil::chars_of;
use crate::strutil::opt_view;
use crate::strutil::extend;
use crate::strutil::string_of;
use crate::strutil::to_upper;
use crate::strutil::upper_of;
use crate::timefmt::push_digits;
use crate::timefmt::push_ts_hour;
use crate::timefmt::push_ts_minute;
use crate::timefmt::spec_digits;
use crate::timefmt::spec_ts_hour;
use crate::timefmt::spec_ts_minute;
use crate::timefmt::lemma_ts_hour_injective;
use crate::timefmt::lemma_ts_minute_injective;
use crate::timefmt::Timestamp;

verus! {

// ---------------------------------------------------------------------------
// Request URLs.
// ---------------------------------------------------------------------------

/// The fixed landing page whose response carries the session cookie.
pub open spec fn spec_landing_url() -> Seq<char> {
    "https://meteofrance.com/meteo-marine/penmarc-h-anse-de-l-aiguillon/BMSCOTE-01-04"@
}

/// The secondary (XML) report URL for a region and zone, each prefixed
/// with a zero to two digits.
pub open spec fn spec_bmr_url(region: u8, zone: u8) -> Seq<char> {
    "https://rpcache-aa.meteofrance.com/internet2018client/2.0/report?domain=BMRCOTE-0"@
        + spec_digits(region as nat) + "-0"@ + spec_digits(zone as nat)
        + "&report_type=marine&report_subtype=BMR_cote_fr&format=xml"@
}

/// The primary (JSON) report URL for a region and zone.
pub open spec fn spec_bms_url(region: u8, zone: u8) -> Seq<char> {
    "https://rpcache-aa.meteofrance.com/internet2018client/2.0/report?domain=BMSCOTE-0"@
        + spec_digits(region as nat) + "-0"@ + spec_digits(zone as nat)
        + "&report_type=marine&report_subtype=BMS_cote_fr&format=json"@
}

// ---------------------------------------------------------------------------
// Artifact filenames.
// ---------------------------------------------------------------------------

/// `{KIND}_zone{zone}_{YYYY_MM_DD_HH_MM}.{ext}`: the name of a raw artifact.
pub open spec fn spec_raw_filename(kind: Seq<char>, zone: u8, t: Timestamp, ext: Seq<char>)
    -> Seq<char> {
    upper_of(kind) + "_zone"@ + spec_digits(zone as nat) + "_"@ + spec_ts_minute(t) + "."@ + ext
}

/// `{KIND}_pretty_zone{zone}_{YYYY_MM_DD_HH}.txt`: the name of a pretty
/// artifact.
pub open spec fn spec_pretty_filename(kind: Seq<char>, zone: u8, t: Timestamp) -> Seq<char> {
    upper_of(kind) + "_pretty_zone"@ + spec_digits(zone as nat) + "_"@ + spec_ts_hour(t) + ".txt"@
}

/// One file to write: the directory, the filename, and the content.
#[derive(Debug)]
pub struct Artifact {
    pub dir: String,
    pub filename: String,
    pub content: String,
}

impl View for Artifact {
    type V = (Seq<char>, Seq<char>, Seq<char>);

    open spec fn view(&self) -> (Seq<char>, Seq<char>, Seq<char>) {
        (self.dir@, self.filename@, self.content@)
    }
}

impl DeepView for Artifact {
    type V = (Seq<char>, Seq<char>, Seq<char>);

    open spec fn deep_view(&self) -> (Seq<char>, Seq<char>, Seq<char>) {
        self@
    }
}

// ---------------------------------------------------------------------------
// One cycle, as the orchestrator sequences it.
// ---------------------------------------------------------------------------

/// The secondary-report artifacts of one cycle: one artifact in the
/// configured rendering when the report is wanted and a body is at hand,
/// none otherwise; a failed rendering aborts the cycle.
pub open spec fn spec_bmr_artifacts(c: MFConfig, bmr: Option<Seq<char>>, t: Timestamp)
    -> Result<Seq<(Seq<char>, Seq<char>, Seq<char>)>, MfError> {
    match bmr {
        Some(b) => if c.want_bmr {
            if c.pretty {
                match spec_pretty_xml(b) {
                    Ok(content) => Ok(
                        seq![(c.bmrpath@, spec_pretty_filename("BMR"@, c.zone, t), content)],
                    ),
                    Err(e) => Err(e),
                }
            } else {
                Ok(seq![(c.bmrpath@, spec_raw_filename("BMR"@, c.zone, t, "xml"@), b)])
            }
        } else {
            Ok(Seq::empty())
        },
        None => Ok(Seq::empty()),
    }
}

/// The primary-report artifacts of one cycle: one artifact in the
/// configured rendering for every fetched body, an empty one included;
/// in pretty mode an empty or malformed body fails rendering, which
/// yields nothing for this document.
pub open spec fn spec_bms_artifacts(c: MFConfig, bms: Seq<char>, t: Timestamp) -> Result<
    Seq<(Seq<char>, Seq<char>, Seq<char>)>,
    MfError,
> {
    if c.pretty {
        match spec_pretty_json(bms) {
            Ok(content) => Ok(seq![(c.bmspath@, spec_pretty_filename("BMS"@, c.zone, t), content)]),
            Err(e) => Err(e),
        }
    } else {
        Ok(seq![(c.bmspath@, spec_raw_filename("BMS"@, c.zone, t, "json"@), bms)])
    }
}

/// What one cycle writes and how it ended: the artifacts of the documents
/// processed before any failure, secondary report first, and the first
/// failure itself.  A failure aborts only the remainder of the cycle's
/// work: artifacts planned before it stand.
pub open spec fn spec_cycle(c: MFConfig, bms: Seq<char>, bmr: Option<Seq<char>>, t: Timestamp)
    -> (Seq<(Seq<char>, Seq<char>, Seq<char>)>, Option<MfError>) {
    match spec_bmr_artifacts(c, bmr, t) {
        Err(e) => (Seq::empty(), Some(e)),
        Ok(first) => match spec_bms_artifacts(c, bms, t) {
            Err(e) => (first, Some(e)),
            Ok(second) => (first + second, None),
        },
    }
}

/// Plans and renders the cycle's work from the fetched report bodies.
pub struct MFparser {
    pub config: MFConfig,
}

impl MFparser {
    pub fn new(config: MFConfig) -> (r: Self)
        ensures
            r.config == config,
    {
        MFparser { config }
    }

    /// The landing-page URL whose response carries the session cookie.
    pub fn landing_url(&self) -> (r: String)
        ensures
            r@ == spec_landing_url(),
    {
        String::from_str(
            "https://meteofrance.com/meteo-marine/penmarc-h-anse-de-l-aiguillon/BMSCOTE-01-04",
        )
    }

    /// The secondary-report URL for the configured region and zone.
    pub fn bmr_url(&self) -> (r: String)
        ensures
            r@ == spec_bmr_url(self.config.region, self.config.zone),
    {
        let mut out = chars_of(
            "https://rpcache-aa.meteofrance.com/internet2018client/2.0/report?domain=BMRCOTE-0",
        );
        push_digits(&mut out, self.config.region);
        let mid = chars_of("-0");
        extend(&mut out, &mid);
        push_digits(&mut out, self.config.zone);
        let rest = chars_of("&report_type=marine&report_subtype=BMR_cote_fr&format=xml");
        extend(&mut out, &rest);
        proof {
            assert(out@ =~= spec_bmr_url(self.config.region, self.config.zone));
        }
        string_of(&out)
    }

    /// The primary-report URL for the configured region and zone.
    pub fn bms_url(&self) -> (r: String)
        ensures
            r@ == spec_bms_url(self.config.region, self.config.zone),
    {
        let mut out = chars_of(
            "https://rpcache-aa.meteofrance.com/internet2018client/2.0/report?domain=BMSCOTE-0",
        );
        push_digits(&mut out, self.config.region);
        let mid = chars_of("-0");
        extend(&mut out, &mid);
        push_digits(&mut out, self.config.zone);
        let rest = chars_of("&report_type=marine&report_subtype=BMS_cote_fr&format=json");
        extend(&mut out, &rest);
        proof {
            assert(out@ =~= spec_bms_url(self.config.region, self.config.zone));
        }
        string_of(&out)
    }

    /// The requests one cycle issues: the landing page whose response
    /// carries the cookie, the primary-report URL, and the secondary-report
    /// URL exactly when the secondary report is wanted.
    pub fn request_plan(&self) -> (r: (String, String, Option<String>))
        ensures
            r.0@ == spec_landing_url(),
            r.1@ == spec_bms_url(self.config.region, self.config.zone),
            match r.2 {
                Some(u) => self.config.want_bmr && u@ == spec_bmr_url(
                    self.config.region,
                    self.config.zone,
                ),
                None => !self.config.want_bmr,
            },
    {
        let bmr = if self.config.want_bmr {
            Some(self.bmr_url())
        } else {
            None
        };
        (self.landing_url(), self.bms_url(), bmr)
    }

    /// The raw-mode filename for a report written now.
    pub fn raw_filename(&self, typereport: &str, ext: &str, now: &Timestamp) -> (r: String)
        requires
            now.wf(),
        ensures
            r@ == spec_raw_filename(typereport@, self.config.zone, *now, ext@),
    {
        let upper = to_upper(typereport);
        let mut out = chars_of(upper.as_str());
        let zone_lit = chars_of("_zone");
        extend(&mut out, &zone_lit);
        push_digits(&mut out, self.config.zone);
        out.push('_');
        push_ts_minute(&mut out, now);
        out.push('.');
        let ext_cs = chars_of(ext);
        extend(&mut out, &ext_cs);
        proof {
            reveal_strlit("_");
            reveal_strlit(".");
            assert(out@ =~= spec_raw_filename(typereport@, self.config.zone, *now, ext@));
        }
        string_of(&out)
    }

    /// The pretty-mode filename for a report written now.
    pub fn pretty_filename(&self, typereport: &str, now: &Timestamp) -> (r: String)
        requires
            now.wf(),
        ensures
            r@ == spec_pretty_filename(typereport@, self.config.zone, *now),
    {
        let upper = to_upper(typereport);
        let mut out = chars_of(upper.as_str());
        let zone_lit = chars_of("_pretty_zone");
        extend(&mut out, &zone_lit);
        push_digits(&mut out, self.config.zone);
        out.push('_');
        push_ts_hour(&mut out, now);
        let txt = chars_of(".txt");
        extend(&mut out, &txt);
        proof {
            reveal_strlit("_");
            assert(out@ =~= spec_pretty_filename(typereport@, self.config.zone, *now));
        }
        string_of(&out)
    }

    /// The artifact a raw-mode write stores: the body unchanged, under the
    /// minute-precision name.
    pub fn raw_artifact(&self, res: &str, typereport: &str, path: &str, ext: &str, now: &Timestamp)
        -> (a: Artifact)
        requires
            now.wf(),
        ensures
            a@ == (path@, spec_raw_filename(typereport@, self.config.zone, *now, ext@), res@),
    {
        Artifact {
            dir: String::from_str(path),
            filename: self.raw_filename(typereport, ext, now),
            content: String::from_str(res),
        }
    }

    /// The artifact a pretty-mode write of the secondary (XML) report
    /// stores, under the hour-precision name; rendering failures pass
    /// through.
    pub fn pretty_xml_artifact(&self, res: &str, typereport: &str, path: &str, now: &Timestamp)
        -> (r: Result<Artifact, MfError>)
        requires
            now.wf(),
        ensures
            match r {
                Ok(a) => spec_pretty_xml(res@) matches Ok(content) && a@ == (
                    path@,
                    spec_pretty_filename(typereport@, self.config.zone, *now),
                    content,
                ),
                Err(e) => spec_pretty_xml(res@) == Err::<Seq<char>, MfError>(e),
            },
    {
        match pretty_xml(res) {
            Ok(content) => Ok(
                Artifact {
                    dir: String::from_str(path),
                    filename: self.pretty_filename(typereport, now),
                    content,
                },
            ),
            Err(e) => Err(e),
        }
    }

    /// The artifact a pretty-mode write of the primary (JSON) report
    /// stores, under the hour-precision name; rendering failures pass
    /// through.
    pub fn pretty_json_artifact(&self, res: &str, typereport: &str, path: &str, now: &Timestamp)
        -> (r: Result<Artifact, MfError>)
        requires
            now.wf(),
        ensures
            match r {
                Ok(a) => spec_pretty_json(res@) matches Ok(content) && a@ == (
                    path@,
                    spec_pretty_filename(typereport@, self.config.zone, *now),
                    content,
                ),
                Err(e) => spec_pretty_json(res@) == Err::<Seq<char>, MfError>(e),
            },
    {
        match pretty_json(res) {
            Ok(content) => Ok(
                Artifact {
                    dir: String::from_str(path),
                    filename: self.pretty_filename(typereport, now),
                    content,
                },
            ),
            Err(e) => Err(e),
        }
    }

    /// Plans one cycle, as the orchestrator sequences it: the secondary
    /// report first and only when wanted, then the primary, empty or not.
    /// The first failure ends the planning; the artifacts planned before
    /// it are returned beside it, so the caller still writes them.
    pub fn plan_cycle(&self, bms: &str, bmr: &Option<String>, now: &Timestamp) -> (r: (
        Vec<Artifact>,
        Option<MfError>,
    ))
        requires
            now.wf(),
        ensures
            r.0.deep_view() == spec_cycle(self.config, bms@, opt_view(*bmr), *now).0,
            r.1 == spec_cycle(self.config, bms@, opt_view(*bmr), *now).1,
    {
        let mut arts: Vec<Artifact> = Vec::new();
        match bmr {
            Some(b) => if self.config.want_bmr {
                if self.config.pretty {
                    match self.pretty_xml_artifact(
                        b.as_str(),
                        "BMR",
                        self.config.bmrpath.as_str(),
                        now,
                    ) {
                        Ok(a) => arts.push(a),
                        Err(e) => {
                            proof {
                                assert(arts.deep_view() =~~= Seq::<
                                    (Seq<char>, Seq<char>, Seq<char>),
                                >::empty());
                            }
                            return (arts, Some(e));
                        },
                    }
                } else {
                    let a = self.raw_artifact(
                        b.as_str(),
                        "BMR",
                        self.config.bmrpath.as_str(),
                        "xml",
                        now,
                    );
                    arts.push(a);
                }
            },
            None => {},
        }
        let ghost first = spec_bmr_artifacts(self.config, opt_view(*bmr), *now);
        proof {
            assert(first matches Ok(f) && arts.deep_view() =~~= f);
        }
        if self.config.pretty {
            match self.pretty_json_artifact(bms, "BMS", self.config.bmspath.as_str(), now) {
                Ok(a) => arts.push(a),
                Err(e) => {
                    return (arts, Some(e));
                },
            }
        } else {
            let a = self.raw_artifact(bms, "BMS", self.config.bmspath.as_str(), "json", now);
            arts.push(a);
        }
        proof {
            assert(arts.deep_view() =~~= spec_cycle(self.config, bms@, opt_view(*bmr), *now).0);
        }
        (arts, None)
    }
}

// ---------------------------------------------------------------------------
// Collision of artifact names.
// ---------------------------------------------------------------------------

/// For one report kind, zone and extension, raw filenames collide exactly
/// when the cycles fall in the same minute.
pub proof fn lemma_raw_filename_collision(
    kind: Seq<char>,
    zone: u8,
    ext: Seq<char>,
    t1: Timestamp,
    t2: Timestamp,
)
    requires
        t1.wf(),
        t2.wf(),
    ensures
        (spec_raw_filename(kind, zone, t1, ext) == spec_raw_filename(kind, zone, t2, ext)) <==> (t1
            == t2),
{
    reveal_strlit("_");
    if spec_raw_filename(kind, zone, t1, ext) == spec_raw_filename(kind, zone, t2, ext) {
        let p = (upper_of(kind) + "_zone"@ + spec_digits(zone as nat) + "_"@).len() as int;
        let s1 = spec_raw_filename(kind, zone, t1, ext);
        let s2 = spec_raw_filename(kind, zone, t2, ext);
        assert(spec_ts_minute(t1).len() == 16);
        assert(spec_ts_minute(t2).len() == 16);
        assert(spec_ts_minute(t1) =~= s1.subrange(p, p + 16));
        assert(spec_ts_minute(t2) =~= s2.subrange(p, p + 16));
        lemma_ts_minute_injective(t1, t2);
    }
}

/// For one report kind and zone, pretty filenames collide exactly when the
/// cycles fall in the same hour.
pub proof fn lemma_pretty_filename_collision(kind: Seq<char>, zone: u8, t1: Timestamp, t2: Timestamp)
    requires
        t1.wf(),
        t2.wf(),
    ensures
        (spec_pretty_filename(kind, zone, t1) == spec_pretty_filename(kind, zone, t2))
            <==> t1.same_hour(t2),
{
    reveal_strlit("_");
    if spec_pretty_filename(kind, zone, t1) == spec_pretty_filename(kind, zone, t2) {
        let p = (upper_of(kind) + "_pretty_zone"@ + spec_digits(zone as nat) + "_"@).len() as int;
        let s1 = spec_pretty_filename(kind, zone, t1);
        let s2 = spec_pretty_filename(kind, zone, t2);
        assert(spec_ts_hour(t1).len() == 13);
        assert(spec_ts_hour(t2).len() == 13);
        assert(spec_ts_hour(t1) =~= s1.subrange(p, p + 13));
        assert(spec_ts_hour(t2) =~= s2.subrange(p, p + 13));
        lemma_ts_hour_injective(t1, t2);
    } else {
        if t1.same_hour(t2) {
            assert(spec_ts_hour(t1) == spec_ts_hour(t2));
        }
    }
}

// ---------------------------------------------------------------------------
// An unwanted secondary report is never written.
// ---------------------------------------------------------------------------

/// With the secondary report unwanted, the cycle's plan is the same
/// whatever the remote returned for it, and every artifact it writes is a
/// primary one.
pub proof fn lemma_unwanted_bmr_writes_nothing(
    c: MFConfig,
    bms: Seq<char>,
    bmr: Option<Seq<char>>,
    t: Timestamp,
)
    requires
        !c.want_bmr,
    ensures
        spec_cycle(c, bms, bmr, t) == spec_cycle(c, bms, None::<Seq<char>>, t),
        spec_cycle(c, bms, bmr, t).0.len() <= 1,
        forall|i: int|
            0 <= i < spec_cycle(c, bms, bmr, t).0.len() ==> (#[trigger] spec_cycle(
                c,
                bms,
                bmr,
                t,
            ).0[i]).0 == c.bmspath@,
{
    assert(spec_bmr_artifacts(c, bmr, t) == Ok::<Seq<(Seq<char>, Seq<char>, Seq<char>)>, MfError>(
        Seq::empty(),
    ));
    match spec_bms_artifacts(c, bms, t) {
        Ok(second) => {
            assert(Seq::<(Seq<char>, Seq<char>, Seq<char>)>::empty() + second =~= second);
        },
        Err(_) => {},
    }
}

} // verus!
