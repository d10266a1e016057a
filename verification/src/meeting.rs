//! Meeting detection: the known meeting applications, the process-name
//! patterns that reveal them, the detections made from a snapshot of the
//! running processes (each process reported once while it runs), and the
//! decisions taken on detections and on the user's answers.
use vstd::prelude::*;
use std::collections::HashSet;
use crate::text::{chars_eq, copy_str, err_str, lowercase, push_str, str_eq, to_lowercase};

verus! {

broadcast use vstd::std_specs::hash::group_hash_axioms;

/// Known meeting applications.
#[derive(Debug, Clone, PartialEq, Eq, Hash)]
pub enum MeetingApp {
    Zoom,
    MicrosoftTeams,
    GoogleMeet,
    Webex,
    Slack,
    Discord,
    Skype,
    Unknown(String),
}

/// The name shown for an application.
pub open spec fn display_name_of(app: MeetingApp) -> Seq<char> {
    match app {
        MeetingApp::Zoom => "Zoom"@,
        MeetingApp::MicrosoftTeams => "Microsoft Teams"@,
        MeetingApp::GoogleMeet => "Google Meet"@,
        MeetingApp::Webex => "Webex"@,
        MeetingApp::Slack => "Slack Huddle"@,
        MeetingApp::Discord => "Discord"@,
        MeetingApp::Skype => "Skype"@,
        MeetingApp::Unknown(name) => name@,
    }
}

/// The icon name of an application.
pub open spec fn icon_name_of(app: MeetingApp) -> Seq<char> {
    match app {
        MeetingApp::Zoom => "zoom"@,
        MeetingApp::MicrosoftTeams => "teams"@,
        MeetingApp::GoogleMeet => "meet"@,
        MeetingApp::Webex => "webex"@,
        MeetingApp::Slack => "slack"@,
        MeetingApp::Discord => "discord"@,
        MeetingApp::Skype => "skype"@,
        MeetingApp::Unknown(_) => "unknown"@,
    }
}

impl MeetingApp {
    /// The name shown for the application.
    pub fn display_name(&self) -> (r: &str)
        ensures
            r@ == display_name_of(*self),
    {
        match self {
            MeetingApp::Zoom => "Zoom",
            MeetingApp::MicrosoftTeams => "Microsoft Teams",
            MeetingApp::GoogleMeet => "Google Meet",
            MeetingApp::Webex => "Webex",
            MeetingApp::Slack => "Slack Huddle",
            MeetingApp::Discord => "Discord",
            MeetingApp::Skype => "Skype",
            MeetingApp::Unknown(name) => name.as_str(),
        }
    }

    /// The name of the application's icon.
    pub fn icon_name(&self) -> (r: &str)
        ensures
            r@ == icon_name_of(*self),
    {
        match self {
            MeetingApp::Zoom => "zoom",
            MeetingApp::MicrosoftTeams => "teams",
            MeetingApp::GoogleMeet => "meet",
            MeetingApp::Webex => "webex",
            MeetingApp::Slack => "slack",
            MeetingApp::Discord => "discord",
            MeetingApp::Skype => "skype",
            MeetingApp::Unknown(_) => "unknown",
        }
    }

    /// A copy of the application.
    pub fn duplicate(&self) -> (r: Self)
        ensures
            r == *self,
    {
        match self {
            MeetingApp::Zoom => MeetingApp::Zoom,
            MeetingApp::MicrosoftTeams => MeetingApp::MicrosoftTeams,
            MeetingApp::GoogleMeet => MeetingApp::GoogleMeet,
            MeetingApp::Webex => MeetingApp::Webex,
            MeetingApp::Slack => MeetingApp::Slack,
            MeetingApp::Discord => MeetingApp::Discord,
            MeetingApp::Skype => MeetingApp::Skype,
            MeetingApp::Unknown(name) => MeetingApp::Unknown(name.clone()),
        }
    }
}

/// A meeting application found running.
#[derive(Debug, Clone)]
pub struct DetectedMeeting {
    pub app: MeetingApp,
    pub pid: u32,
    /// The process name as the system reports it.
    pub process_name: String,
    pub window_title: Option<String>,
    /// "<application> - <time label>".
    pub suggested_name: String,
    /// Seconds since the Unix epoch.
    pub detected_at: u64,
}

/// A running process in a snapshot of the process table.
#[derive(Debug, Clone)]
pub struct ProcessInfo {
    pub pid: u32,
    pub name: String,
}

/// The process names (lowercase) that reveal each application, in the order
/// in which they are tried.
pub struct ProcessPattern {
    pub app: MeetingApp,
    pub process_names: Vec<&'static str>,
    /// Browser addresses of the web clients (not used for detection yet).
    pub browser_patterns: Vec<&'static str>,
}

/// The patterns as plain values: application and process names.
pub open spec fn patterns_spec() -> Seq<(MeetingApp, Seq<Seq<char>>)> {
    seq![
        (MeetingApp::Zoom, seq!["zoom.exe"@, "zoom"@, "zoomit.exe"@, "zoom.us"@, "caphost.exe"@]),
        (
            MeetingApp::MicrosoftTeams,
            seq!["teams.exe"@, "ms-teams.exe"@, "msteams.exe"@, "microsoft teams"@, "teams"@],
        ),
        (MeetingApp::GoogleMeet, Seq::empty()),
        (
            MeetingApp::Webex,
            seq!["webexmta.exe"@, "ciscowebexstart.exe"@, "atmgr.exe"@, "webex.exe"@, "webex"@],
        ),
        (MeetingApp::Slack, seq!["slack.exe"@, "slack"@]),
        (MeetingApp::Discord, seq!["discord.exe"@, "discord"@]),
        (MeetingApp::Skype, seq!["skype.exe"@, "skypeapp.exe"@, "skype"@]),
    ]
}

/// The browser addresses of each application's web client, in pattern order.
pub open spec fn browser_patterns_spec() -> Seq<Seq<Seq<char>>> {
    seq![
        seq!["zoom.us/j/"@, "zoom.us/wc/"@],
        seq!["teams.microsoft.com"@, "teams.live.com"@],
        seq!["meet.google.com"@],
        seq!["webex.com"@],
        seq!["app.slack.com/huddle"@],
        seq!["discord.com/channels"@],
        seq!["web.skype.com"@],
    ]
}

/// The browser addresses of a pattern as plain values.
pub open spec fn browser_view(p: ProcessPattern) -> Seq<Seq<char>> {
    p.browser_patterns@.map_values(|s: &str| s@)
}

/// The view of a pattern.
pub open spec fn pattern_view(p: ProcessPattern) -> (MeetingApp, Seq<Seq<char>>) {
    (p.app, p.process_names@.map_values(|s: &str| s@))
}

/// The meeting applications with their process-name patterns.
pub fn get_process_patterns() -> (r: Vec<ProcessPattern>)
    ensures
        r@.map_values(|p: ProcessPattern| pattern_view(p)) == patterns_spec(),
        r@.map_values(|p: ProcessPattern| browser_view(p)) == browser_patterns_spec(),
{
    let mut v: Vec<ProcessPattern> = Vec::new();
    v.push(
        ProcessPattern {
            app: MeetingApp::Zoom,
            process_names: vec!["zoom.exe", "zoom", "zoomit.exe", "zoom.us", "caphost.exe"],
            browser_patterns: vec!["zoom.us/j/", "zoom.us/wc/"],
        },
    );
    v.push(
        ProcessPattern {
            app: MeetingApp::MicrosoftTeams,
            process_names: vec![
                "teams.exe",
                "ms-teams.exe",
                "msteams.exe",
                "microsoft teams",
                "teams",
            ],
            browser_patterns: vec!["teams.microsoft.com", "teams.live.com"],
        },
    );
    v.push(
        ProcessPattern {
            app: MeetingApp::GoogleMeet,
            process_names: Vec::new(),
            browser_patterns: vec!["meet.google.com"],
        },
    );
    v.push(
        ProcessPattern {
            app: MeetingApp::Webex,
            process_names: vec![
                "webexmta.exe",
                "ciscowebexstart.exe",
                "atmgr.exe",
                "webex.exe",
                "webex",
            ],
            browser_patterns: vec!["webex.com"],
        },
    );
    v.push(
        ProcessPattern {
            app: MeetingApp::Slack,
            process_names: vec!["slack.exe", "slack"],
            browser_patterns: vec!["app.slack.com/huddle"],
        },
    );
    v.push(
        ProcessPattern {
            app: MeetingApp::Discord,
            process_names: vec!["discord.exe", "discord"],
            browser_patterns: vec!["discord.com/channels"],
        },
    );
    v.push(
        ProcessPattern {
            app: MeetingApp::Skype,
            process_names: vec!["skype.exe", "skypeapp.exe", "skype"],
            browser_patterns: vec!["web.skype.com"],
        },
    );
    proof {
        let views = v@.map_values(|p: ProcessPattern| pattern_view(p));
        assert(views[0].1 =~= patterns_spec()[0].1);
        assert(views[1].1 =~= patterns_spec()[1].1);
        assert(views[2].1 =~= patterns_spec()[2].1);
        assert(views[3].1 =~= patterns_spec()[3].1);
        assert(views[4].1 =~= patterns_spec()[4].1);
        assert(views[5].1 =~= patterns_spec()[5].1);
        assert(views[6].1 =~= patterns_spec()[6].1);
        assert(views =~= patterns_spec());
        let urls = v@.map_values(|p: ProcessPattern| browser_view(p));
        assert(urls[0] =~= browser_patterns_spec()[0]);
        assert(urls[1] =~= browser_patterns_spec()[1]);
        assert(urls[2] =~= browser_patterns_spec()[2]);
        assert(urls[3] =~= browser_patterns_spec()[3]);
        assert(urls[4] =~= browser_patterns_spec()[4]);
        assert(urls[5] =~= browser_patterns_spec()[5]);
        assert(urls[6] =~= browser_patterns_spec()[6]);
        assert(urls =~= browser_patterns_spec());
    }
    v
}

/// The browser process names (lowercase) of the web clients.
pub open spec fn browsers_spec() -> Seq<Seq<char>> {
    seq![
        "chrome.exe"@,
        "msedge.exe"@,
        "firefox.exe"@,
        "brave.exe"@,
        "opera.exe"@,
        "vivaldi.exe"@,
        "chromium.exe"@,
        "google chrome"@,
        "microsoft edge"@,
        "firefox"@,
        "brave browser"@,
        "safari"@,
    ]
}

/// Browser process names, for web-based meetings.
pub fn get_browser_processes() -> (r: Vec<&'static str>)
    ensures
        r@.map_values(|s: &str| s@) == browsers_spec(),
{
    let v = vec![
        "chrome.exe",
        "msedge.exe",
        "firefox.exe",
        "brave.exe",
        "opera.exe",
        "vivaldi.exe",
        "chromium.exe",
        "google chrome",
        "microsoft edge",
        "firefox",
        "brave browser",
        "safari",
    ];
    assert(v@.map_values(|s: &str| s@) =~= browsers_spec());
    v
}

/// `t` occurs in `s` as a contiguous run.
pub open spec fn contains_seq(s: Seq<char>, t: Seq<char>) -> bool {
    exists|i: int| 0 <= i && i + t.len() <= s.len() && #[trigger] s.subrange(i, i + t.len()) == t
}

/// A lowercase process name matches a pattern name: it contains it or is it.
pub open spec fn name_matches(lower: Seq<char>, name: Seq<char>) -> bool {
    contains_seq(lower, name) || lower == name
}

/// Some name of `names` matches.
pub open spec fn any_name_matches(lower: Seq<char>, names: Seq<Seq<char>>) -> bool {
    exists|k: int| 0 <= k < names.len() && name_matches(lower, #[trigger] names[k])
}

/// The applications, in pattern order, whose patterns a lowercase process
/// name matches.
pub open spec fn matched_apps(lower: Seq<char>, pats: Seq<(MeetingApp, Seq<Seq<char>>)>) -> Seq<
    MeetingApp,
>
    decreases pats.len(),
{
    if pats.len() == 0 {
        Seq::empty()
    } else {
        let rest = matched_apps(lower, pats.drop_first());
        if any_name_matches(lower, pats[0].1) {
            seq![pats[0].0] + rest
        } else {
            rest
        }
    }
}

/// Whether `t` occurs in `s`.
pub fn contains_str(s: &Vec<char>, t: &Vec<char>) -> (r: bool)
    ensures
        r == contains_seq(s@, t@),
{
    if t.len() == 0 {
        assert(s@.subrange(0int, 0int + t@.len()) =~= t@);
        return true;
    }
    if t.len() > s.len() {
        return false;
    }
    let last = s.len() - t.len();
    let mut i: usize = 0;
    while i <= last
        invariant
            last == s.len() - t.len(),
            0 < t.len() <= s.len(),
            i <= last + 1,
            forall|j: int| 0 <= j < i ==> #[trigger] s@.subrange(j, j + t.len()) != t@,
        decreases last + 1 - i,
    {
        let mut k: usize = 0;
        assert(s@.subrange(i as int, i as int) =~= t@.take(0));
        while k < t.len() && s[i + k] == t[k]
            invariant
                0 < t.len() <= s.len(),
                i <= last,
                last == s.len() - t.len(),
                k <= t.len(),
                s@.subrange(i as int, i + k) == t@.take(k as int),
            decreases t.len() - k,
        {
            assert(s@.subrange(i as int, i + k + 1) =~= s@.subrange(i as int, i + k).push(
                s@[i + k],
            ));
            assert(t@.take(k + 1) =~= t@.take(k as int).push(t@[k as int]));
            k += 1;
        }
        if k == t.len() {
            assert(t@.take(t.len() as int) =~= t@);
            return true;
        }
        assert(s@.subrange(i as int, i + t.len())[k as int] != t@[k as int]);
        i += 1;
    }
    assert forall|j: int| 0 <= j && j + t.len() <= s.len() implies #[trigger] s@.subrange(
        j,
        j + t.len(),
    ) != t@ by {
        assert(j < i);
    }
    false
}

fn any_matches(lower: &Vec<char>, names: &Vec<&'static str>) -> (r: bool)
    ensures
        r == any_name_matches(lower@, names@.map_values(|s: &str| s@)),
{
    let ghost ns = names@.map_values(|s: &str| s@);
    let mut k: usize = 0;
    while k < names.len()
        invariant
            ns == names@.map_values(|s: &str| s@),
            k <= names.len(),
            forall|j: int| 0 <= j < k ==> !name_matches(lower@, #[trigger] ns[j]),
        decreases names.len() - k,
    {
        let t = crate::text::to_chars(names[k]);
        let e = contains_str(lower, &t) || chars_eq(lower, &t);
        assert(ns[k as int] == t@);
        if e {
            return true;
        }
        k += 1;
    }
    false
}

/// The view of a detection: application, pid, process name, window title,
/// suggested name, detection time.
pub open spec fn detected_view(d: DetectedMeeting) -> (
    MeetingApp,
    u32,
    Seq<char>,
    Option<Seq<char>>,
    Seq<char>,
    u64,
) {
    (
        d.app,
        d.pid,
        d.process_name@,
        match d.window_title {
            Some(t) => Some(t@),
            None => None,
        },
        d.suggested_name@,
        d.detected_at,
    )
}

/// The detection of `app` in process `p`, with the suggested name
/// "<application> - <time label>".
pub open spec fn detection_of(app: MeetingApp, p: (u32, Seq<char>), label: Seq<char>, now: u64) -> (
    MeetingApp,
    u32,
    Seq<char>,
    Option<Seq<char>>,
    Seq<char>,
    u64,
) {
    (app, p.0, p.1, None::<Seq<char>>, display_name_of(app) + " - "@ + label, now)
}

/// The detections made for one process: one per matched application.
pub open spec fn detections_for(p: (u32, Seq<char>), label: Seq<char>, now: u64) -> Seq<
    (MeetingApp, u32, Seq<char>, Option<Seq<char>>, Seq<char>, u64),
> {
    matched_apps(lowercase(p.1), patterns_spec()).map_values(
        |app: MeetingApp| detection_of(app, p, label, now),
    )
}

/// The detections made for a snapshot, process by process.
pub open spec fn all_detections(ps: Seq<(u32, Seq<char>)>, label: Seq<char>, now: u64) -> Seq<
    (MeetingApp, u32, Seq<char>, Option<Seq<char>>, Seq<char>, u64),
>
    decreases ps.len(),
{
    if ps.len() == 0 {
        Seq::empty()
    } else {
        all_detections(ps.drop_last(), label, now) + detections_for(ps.last(), label, now)
    }
}

/// The plain view of a snapshot.
pub open spec fn snapshot_view(ps: Seq<ProcessInfo>) -> Seq<(u32, Seq<char>)> {
    ps.map_values(|p: ProcessInfo| (p.pid, p.name@))
}

fn detections_for_process(
    p: &ProcessInfo,
    patterns: &Vec<ProcessPattern>,
    time_label: &str,
    now: u64,
    out: &mut Vec<DetectedMeeting>,
)
    requires
        patterns@.map_values(|q: ProcessPattern| pattern_view(q)) == patterns_spec(),
    ensures
        final(out)@.map_values(|d: DetectedMeeting| detected_view(d)) == old(out)@.map_values(
            |d: DetectedMeeting| detected_view(d),
        ) + detections_for((p.pid, p.name@), time_label@, now),
{
    let lower_s = to_lowercase(p.name.as_str());
    let lower = crate::text::to_chars(lower_s.as_str());
    let ghost pats = patterns_spec();
    let ghost before = old(out)@.map_values(|d: DetectedMeeting| detected_view(d));
    let ghost pv = (p.pid, p.name@);
    let ghost make = |app: MeetingApp| detection_of(app, pv, time_label@, now);
    let mut k: usize = 0;
    assert(pats.skip(0) =~= pats);
    while k < patterns.len()
        invariant
            patterns@.map_values(|q: ProcessPattern| pattern_view(q)) == pats,
            pats == patterns_spec(),
            lower@ == lowercase(p.name@),
            pv == (p.pid, p.name@),
            forall|app: MeetingApp| #[trigger] make(app) == detection_of(app, pv, time_label@, now),
            k <= patterns.len(),
            out@.map_values(|d: DetectedMeeting| detected_view(d)) + matched_apps(
                lower@,
                pats.skip(k as int),
            ).map_values(make) == before + matched_apps(lower@, pats).map_values(make),
        decreases patterns.len() - k,
    {
        let ghost rest = pats.skip(k as int);
        assert(rest[0] == pattern_view(patterns@[k as int]));
        assert(rest.drop_first() =~= pats.skip(k + 1));
        let ghost cur = out@.map_values(|d: DetectedMeeting| detected_view(d));
        if any_matches(&lower, &patterns[k].process_names) {
            let app = patterns[k].app.duplicate();
            let mut name = copy_str(app.display_name());
            push_str(&mut name, " - ");
            push_str(&mut name, time_label);
            let d = DetectedMeeting {
                app,
                pid: p.pid,
                process_name: p.name.clone(),
                window_title: None,
                suggested_name: name,
                detected_at: now,
            };
            assert(d.app == rest[0].0);
            assert(d.pid == p.pid);
            assert(d.process_name@ == p.name@);
            assert(d.suggested_name@ == display_name_of(rest[0].0) + " - "@ + time_label@);
            assert(detected_view(d).0 == detection_of(rest[0].0, pv, time_label@, now).0);
            assert(detected_view(d).1 == detection_of(rest[0].0, pv, time_label@, now).1);
            assert(detected_view(d).2 == detection_of(rest[0].0, pv, time_label@, now).2);
            assert(detected_view(d).3 == detection_of(rest[0].0, pv, time_label@, now).3);
            assert(detected_view(d).4 == detection_of(rest[0].0, pv, time_label@, now).4);
            assert(detected_view(d).5 == detection_of(rest[0].0, pv, time_label@, now).5);
            assert(detected_view(d) == detection_of(rest[0].0, pv, time_label@, now));
            assert(detected_view(d) == make(rest[0].0));
            let ghost prev = out@;
            out.push(d);
            assert(out@ == prev.push(d));
            assert(out@.map_values(|d: DetectedMeeting| detected_view(d)) =~= cur.push(
                make(rest[0].0),
            ));
            assert(matched_apps(lower@, rest).map_values(make) =~= seq![make(rest[0].0)]
                + matched_apps(lower@, rest.drop_first()).map_values(make));
        }
        k += 1;
    }
    assert(pats.skip(patterns.len() as int) =~= Seq::<(MeetingApp, Seq<Seq<char>>)>::empty());
    assert(out@.map_values(|d: DetectedMeeting| detected_view(d)) =~= before + matched_apps(
        lower@,
        pats,
    ).map_values(make));
}


impl DetectedMeeting {
    /// A copy of the detection.
    pub fn duplicate(&self) -> (r: Self)
        ensures
            detected_view(r) == detected_view(*self),
    {
        DetectedMeeting {
            app: self.app.duplicate(),
            pid: self.pid,
            process_name: self.process_name.clone(),
            window_title: match &self.window_title {
                Some(t) => Some(t.clone()),
                None => None,
            },
            suggested_name: self.suggested_name.clone(),
            detected_at: self.detected_at,
        }
    }
}

/// The views of a list of detections.
pub open spec fn detections_view(ds: Seq<DetectedMeeting>) -> Seq<
    (MeetingApp, u32, Seq<char>, Option<Seq<char>>, Seq<char>, u64),
> {
    ds.map_values(|d: DetectedMeeting| detected_view(d))
}

/// The detections of `ds`, in order, whose process is not in `seen`.
pub open spec fn unseen(
    ds: Seq<(MeetingApp, u32, Seq<char>, Option<Seq<char>>, Seq<char>, u64)>,
    seen: Set<u32>,
) -> Seq<(MeetingApp, u32, Seq<char>, Option<Seq<char>>, Seq<char>, u64)>
    decreases ds.len(),
{
    if ds.len() == 0 {
        Seq::empty()
    } else if seen.contains(ds.last().1) {
        unseen(ds.drop_last(), seen)
    } else {
        unseen(ds.drop_last(), seen).push(ds.last())
    }
}

/// The process ids of a list of detections.
pub open spec fn pids_of(ds: Seq<(MeetingApp, u32, Seq<char>, Option<Seq<char>>, Seq<char>, u64)>) -> Set<
    u32,
> {
    Set::new(|pid: u32| exists|i: int| 0 <= i < ds.len() && #[trigger] ds[i].1 == pid)
}

/// The process ids of a snapshot.
pub open spec fn snapshot_pids(ps: Seq<(u32, Seq<char>)>) -> Set<u32> {
    Set::new(|pid: u32| exists|i: int| 0 <= i < ps.len() && #[trigger] ps[i].0 == pid)
}

/// The detections that `detect_meetings` reports for a snapshot, given the
/// processes already reported.
pub open spec fn new_detections(
    seen: Set<u32>,
    ps: Seq<(u32, Seq<char>)>,
    label: Seq<char>,
    now: u64,
) -> Seq<(MeetingApp, u32, Seq<char>, Option<Seq<char>>, Seq<char>, u64)> {
    unseen(all_detections(ps, label, now), seen)
}

/// The processes remembered as reported after `detect_meetings`: those
/// reported before or now, while they still run.
pub open spec fn history_after(
    seen: Set<u32>,
    ps: Seq<(u32, Seq<char>)>,
    label: Seq<char>,
    now: u64,
) -> Set<u32> {
    seen.union(pids_of(new_detections(seen, ps, label, now))).intersect(snapshot_pids(ps))
}

/// Some process of the snapshot belongs to a meeting application.
pub open spec fn any_meeting(ps: Seq<(u32, Seq<char>)>) -> bool {
    exists|i: int| 0 <= i < ps.len() && #[trigger] matched_apps(lowercase(ps[i].1), patterns_spec()).len() > 0
}

fn matches_any_pattern(lower: &Vec<char>, patterns: &Vec<ProcessPattern>) -> (r: bool)
    requires
        patterns@.map_values(|q: ProcessPattern| pattern_view(q)) == patterns_spec(),
    ensures
        r == (matched_apps(lower@, patterns_spec()).len() > 0),
{
    let ghost pats = patterns_spec();
    let mut k: usize = 0;
    assert(pats.skip(0) =~= pats);
    while k < patterns.len()
        invariant
            patterns@.map_values(|q: ProcessPattern| pattern_view(q)) == pats,
            pats == patterns_spec(),
            k <= patterns.len(),
            matched_apps(lower@, pats) == matched_apps(lower@, pats.skip(k as int)),
        decreases patterns.len() - k,
    {
        let ghost rest = pats.skip(k as int);
        assert(rest[0] == pattern_view(patterns@[k as int]));
        assert(rest.drop_first() =~= pats.skip(k + 1));
        if any_matches(lower, &patterns[k].process_names) {
            return true;
        }
        k += 1;
    }
    assert(pats.skip(patterns.len() as int) =~= Seq::<(MeetingApp, Seq<Seq<char>>)>::empty());
    false
}

/// Watches the running processes for meeting applications and remembers
/// which processes were already reported.
pub struct ProcessMonitor {
    previously_detected: HashSet<u32>,
}

impl View for ProcessMonitor {
    type V = Set<u32>;

    /// The processes already reported.
    closed spec fn view(&self) -> Set<u32> {
        self.previously_detected@
    }
}

impl ProcessMonitor {
    /// A monitor that has reported nothing yet.
    pub fn new() -> (r: Self)
        ensures
            r@ == Set::<u32>::empty(),
    {
        ProcessMonitor { previously_detected: HashSet::new() }
    }

    /// Whether no process is remembered as reported.
    pub fn history_is_empty(&self) -> (r: bool)
        ensures
            r == (self@ == Set::<u32>::empty()),
    {
        let r = self.previously_detected.is_empty();
        proof {
            if !r {
                assert(!self@.is_empty());
            }
        }
        r
    }

    /// All meeting applications running in the snapshot, one detection per
    /// process and matched application.
    pub fn get_active_meetings(&self, processes: &Vec<ProcessInfo>, time_label: &str, now: u64) -> (r:
        Vec<DetectedMeeting>)
        ensures
            detections_view(r@) == all_detections(snapshot_view(processes@), time_label@, now),
    {
        let patterns = get_process_patterns();
        let ghost sv = snapshot_view(processes@);
        let mut out: Vec<DetectedMeeting> = Vec::new();
        let mut i: usize = 0;
        while i < processes.len()
            invariant
                patterns@.map_values(|q: ProcessPattern| pattern_view(q)) == patterns_spec(),
                sv == snapshot_view(processes@),
                i <= processes.len(),
                detections_view(out@) == all_detections(sv.take(i as int), time_label@, now),
            decreases processes.len() - i,
        {
            detections_for_process(&processes[i], &patterns, time_label, now, &mut out);
            assert(sv.take(i + 1).drop_last() =~= sv.take(i as int));
            assert(sv.take(i + 1).last() == sv[i as int]);
            i += 1;
        }
        assert(sv.take(processes.len() as int) =~= sv);
        out
    }

    /// Whether some meeting application is running in the snapshot.
    pub fn is_meeting_active(&self, processes: &Vec<ProcessInfo>) -> (r: bool)
        ensures
            r == any_meeting(snapshot_view(processes@)),
    {
        let patterns = get_process_patterns();
        let ghost sv = snapshot_view(processes@);
        let mut i: usize = 0;
        while i < processes.len()
            invariant
                patterns@.map_values(|q: ProcessPattern| pattern_view(q)) == patterns_spec(),
                sv == snapshot_view(processes@),
                i <= processes.len(),
                forall|j: int| 0 <= j < i ==> #[trigger] matched_apps(lowercase(sv[j].1), patterns_spec()).len() == 0,
            decreases processes.len() - i,
        {
            let lower_s = to_lowercase(processes[i].name.as_str());
            let lower = crate::text::to_chars(lower_s.as_str());
            assert(sv[i as int].1 == processes@[i as int].name@);
            if matches_any_pattern(&lower, &patterns) {
                return true;
            }
            i += 1;
        }
        false
    }

    /// Detects the meeting applications of the snapshot whose process was
    /// not reported before, remembers their processes, and forgets the
    /// processes that no longer run.
    pub fn detect_meetings(&mut self, processes: &Vec<ProcessInfo>, time_label: &str, now: u64) -> (r:
        Vec<DetectedMeeting>)
        ensures
            detections_view(r@) == new_detections(
                old(self)@,
                snapshot_view(processes@),
                time_label@,
                now,
            ),
            final(self)@ == history_after(old(self)@, snapshot_view(processes@), time_label@, now),
    {
        let ghost seen = self@;
        let ghost sv = snapshot_view(processes@);
        let detected = self.get_active_meetings(processes, time_label, now);
        let ghost all = detections_view(detected@);
        let mut fresh: Vec<DetectedMeeting> = Vec::new();
        let mut i: usize = 0;
        while i < detected.len()
            invariant
                self@ == seen,
                all == detections_view(detected@),
                i <= detected.len(),
                detections_view(fresh@) == unseen(all.take(i as int), seen),
            decreases detected.len() - i,
        {
            assert(all.take(i + 1).drop_last() =~= all.take(i as int));
            assert(all.take(i + 1).last() == detected_view(detected@[i as int]));
            if !self.previously_detected.contains(&detected[i].pid) {
                let d = detected[i].duplicate();
                fresh.push(d);
                assert(detections_view(fresh@) =~= unseen(all.take(i as int), seen).push(
                    detected_view(d),
                ));
            }
            i += 1;
        }
        assert(all.take(detected.len() as int) =~= all);
        let ghost reported = detections_view(fresh@);
        let mut j: usize = 0;
        while j < fresh.len()
            invariant
                reported == detections_view(fresh@),
                j <= fresh.len(),
                self@ == seen.union(pids_of(reported.take(j as int))),
            decreases fresh.len() - j,
        {
            self.previously_detected.insert(fresh[j].pid);
            assert(reported[j as int].1 == fresh@[j as int].pid);
            assert(self@ =~= seen.union(pids_of(reported.take(j + 1)))) by {
                assert forall|pid: u32| pids_of(reported.take(j + 1)).contains(pid) implies
                    pids_of(reported.take(j as int)).contains(pid) || pid == fresh@[j as int].pid by {
                    let k = choose|k: int| 0 <= k < j + 1 && #[trigger] reported.take(j + 1)[k].1 == pid;
                    if k < j {
                        assert(reported.take(j as int)[k].1 == pid);
                    }
                }
                assert forall|pid: u32| pids_of(reported.take(j as int)).contains(pid) implies
                    pids_of(reported.take(j + 1)).contains(pid) by {
                    let k = choose|k: int| 0 <= k < j && #[trigger] reported.take(j as int)[k].1 == pid;
                    assert(reported.take(j + 1)[k].1 == pid);
                }
                assert(reported.take(j + 1)[j as int].1 == fresh@[j as int].pid);
            }
            j += 1;
        }
        assert(reported.take(fresh.len() as int) =~= reported);
        let ghost merged = self@;
        let mut kept: HashSet<u32> = HashSet::new();
        let mut k: usize = 0;
        while k < processes.len()
            invariant
                self@ == merged,
                sv == snapshot_view(processes@),
                k <= processes.len(),
                kept@ == merged.intersect(snapshot_pids(sv.take(k as int))),
            decreases processes.len() - k,
        {
            let pid = processes[k].pid;
            assert(sv[k as int].0 == pid);
            if self.previously_detected.contains(&pid) {
                kept.insert(pid);
            }
            assert(kept@ =~= merged.intersect(snapshot_pids(sv.take(k + 1)))) by {
                assert(sv.take(k + 1)[k as int].0 == pid);
                assert forall|p: u32| snapshot_pids(sv.take(k + 1)).contains(p) implies
                    snapshot_pids(sv.take(k as int)).contains(p) || p == pid by {
                    let m = choose|m: int| 0 <= m < k + 1 && #[trigger] sv.take(k + 1)[m].0 == p;
                    if m < k {
                        assert(sv.take(k as int)[m].0 == p);
                    }
                }
                assert forall|p: u32| snapshot_pids(sv.take(k as int)).contains(p) implies
                    snapshot_pids(sv.take(k + 1)).contains(p) by {
                    let m = choose|m: int| 0 <= m < k && #[trigger] sv.take(k as int)[m].0 == p;
                    assert(sv.take(k + 1)[m].0 == p);
                }
            }
            k += 1;
        }
        assert(sv.take(processes.len() as int) =~= sv);
        self.previously_detected = kept;
        assert(self@ =~= history_after(seen, sv, time_label@, now));
        fresh
    }

    /// Forgets every reported process.
    pub fn clear_detection_history(&mut self)
        ensures
            final(self)@ == Set::<u32>::empty(),
    {
        self.previously_detected.clear();
    }

    /// Remembers `pid` as reported, so that it is not reported while it runs.
    pub fn ignore_pid(&mut self, pid: u32)
        ensures
            final(self)@ == old(self)@.insert(pid),
    {
        self.previously_detected.insert(pid);
    }
}


proof fn lemma_unseen(
    ds: Seq<(MeetingApp, u32, Seq<char>, Option<Seq<char>>, Seq<char>, u64)>,
    seen: Set<u32>,
)
    ensures
        forall|k: int|
            0 <= k < unseen(ds, seen).len() ==> !seen.contains(#[trigger] unseen(ds, seen)[k].1)
                && exists|m: int| 0 <= m < ds.len() && ds[m] == unseen(ds, seen)[k],
    decreases ds.len(),
{
    if ds.len() > 0 {
        lemma_unseen(ds.drop_last(), seen);
        let r = unseen(ds.drop_last(), seen);
        assert forall|k: int| 0 <= k < unseen(ds, seen).len() implies !seen.contains(
            #[trigger] unseen(ds, seen)[k].1,
        ) && exists|m: int| 0 <= m < ds.len() && ds[m] == unseen(ds, seen)[k] by {
            if k < r.len() {
                assert(unseen(ds, seen)[k] == r[k]);
                assert(!seen.contains(r[k].1));
                let m = choose|m: int| 0 <= m < ds.drop_last().len() && ds.drop_last()[m] == r[k];
                assert(ds[m] == r[k]);
            } else {
                assert(unseen(ds, seen)[k] == ds.last());
                assert(ds[ds.len() - 1] == ds.last());
            }
        }
    }
}

proof fn lemma_unseen_of_empty(ds: Seq<(MeetingApp, u32, Seq<char>, Option<Seq<char>>, Seq<char>, u64)>)
    ensures
        unseen(ds, Set::empty()) == ds,
    decreases ds.len(),
{
    if ds.len() > 0 {
        lemma_unseen_of_empty(ds.drop_last());
        assert(ds.drop_last().push(ds.last()) =~= ds);
    }
}

proof fn lemma_detection_pids(ps: Seq<(u32, Seq<char>)>, label: Seq<char>, now: u64)
    ensures
        forall|k: int|
            0 <= k < all_detections(ps, label, now).len() ==> snapshot_pids(ps).contains(
                #[trigger] all_detections(ps, label, now)[k].1,
            ),
    decreases ps.len(),
{
    if ps.len() > 0 {
        let init = ps.drop_last();
        lemma_detection_pids(init, label, now);
        let a = all_detections(init, label, now);
        let b = detections_for(ps.last(), label, now);
        assert forall|k: int| 0 <= k < all_detections(ps, label, now).len() implies snapshot_pids(
            ps,
        ).contains(#[trigger] all_detections(ps, label, now)[k].1) by {
            if k < a.len() {
                assert(all_detections(ps, label, now)[k] == a[k]);
                assert(snapshot_pids(init).contains(a[k].1));
                let m = choose|m: int| 0 <= m < init.len() && #[trigger] init[m].0 == a[k].1;
                assert(ps[m].0 == a[k].1);
            } else {
                assert(all_detections(ps, label, now)[k] == b[k - a.len()]);
                assert(b[k - a.len()].1 == ps.last().0);
                assert(ps[ps.len() - 1].0 == ps.last().0);
            }
        }
    }
}

/// A process reported by `detect_meetings` is not reported by the next call,
/// whatever that call's snapshot holds.
pub proof fn reported_process_is_not_reported_again(
    seen: Set<u32>,
    first: Seq<(u32, Seq<char>)>,
    second: Seq<(u32, Seq<char>)>,
    label: Seq<char>,
    later_label: Seq<char>,
    now: u64,
    later: u64,
    i: int,
)
    requires
        0 <= i < new_detections(seen, first, label, now).len(),
    ensures
        forall|j: int|
            0 <= j < new_detections(history_after(seen, first, label, now), second, later_label, later).len()
                ==> #[trigger] new_detections(
                history_after(seen, first, label, now),
                second,
                later_label,
                later,
            )[j].1 != new_detections(seen, first, label, now)[i].1,
{
    let reported = new_detections(seen, first, label, now);
    let pid = reported[i].1;
    let history = history_after(seen, first, label, now);
    lemma_unseen(all_detections(first, label, now), seen);
    lemma_detection_pids(first, label, now);
    let m = choose|m: int|
        0 <= m < all_detections(first, label, now).len() && all_detections(first, label, now)[m]
            == reported[i];
    assert(snapshot_pids(first).contains(all_detections(first, label, now)[m].1));
    assert(pids_of(reported).contains(pid));
    assert(history.contains(pid));
    lemma_unseen(all_detections(second, later_label, later), history);
}

/// After `ignore_pid(pid)`, no detection of process `pid` is reported.
pub proof fn ignored_process_is_not_reported(
    seen: Set<u32>,
    pid: u32,
    ps: Seq<(u32, Seq<char>)>,
    label: Seq<char>,
    now: u64,
)
    ensures
        forall|j: int|
            0 <= j < new_detections(seen.insert(pid), ps, label, now).len() ==> #[trigger] new_detections(
                seen.insert(pid),
                ps,
                label,
                now,
            )[j].1 != pid,
{
    lemma_unseen(all_detections(ps, label, now), seen.insert(pid));
}

/// An application is matched whenever the lowercase process name contains
/// one of its pattern names anywhere (as "msteams" contains "teams").
pub proof fn containing_a_pattern_name_matches(
    lower: Seq<char>,
    pats: Seq<(MeetingApp, Seq<Seq<char>>)>,
    k: int,
    j: int,
    x: int,
)
    requires
        0 <= k < pats.len(),
        0 <= j < pats[k].1.len(),
        0 <= x && x + pats[k].1[j].len() <= lower.len(),
        lower.subrange(x, x + pats[k].1[j].len()) == pats[k].1[j],
    ensures
        matched_apps(lower, pats).contains(pats[k].0),
    decreases pats.len(),
{
    let rest = matched_apps(lower, pats.drop_first());
    if k == 0 {
        assert(contains_seq(lower, pats[0].1[j]));
        assert(name_matches(lower, pats[0].1[j]));
        assert(any_name_matches(lower, pats[0].1));
        assert((seq![pats[0].0] + rest)[0] == pats[0].0);
    } else {
        assert(pats.drop_first()[k - 1] == pats[k]);
        containing_a_pattern_name_matches(lower, pats.drop_first(), k - 1, j, x);
        let r = matched_apps(lower, pats);
        let q = choose|q: int| 0 <= q < rest.len() && rest[q] == pats[k].0;
        if any_name_matches(lower, pats[0].1) {
            assert(r[q + 1] == rest[q]);
        } else {
            assert(r[q] == rest[q]);
        }
    }
}

/// A snapshot holding a process whose lowercase name contains a pattern
/// name of an application has an active meeting, and that process is
/// detected as that application.
pub proof fn process_with_a_pattern_name_is_detected(
    ps: Seq<(u32, Seq<char>)>,
    i: int,
    k: int,
    j: int,
    x: int,
)
    requires
        0 <= i < ps.len(),
        0 <= k < patterns_spec().len(),
        0 <= j < patterns_spec()[k].1.len(),
        0 <= x && x + patterns_spec()[k].1[j].len() <= lowercase(ps[i].1).len(),
        lowercase(ps[i].1).subrange(x, x + patterns_spec()[k].1[j].len()) == patterns_spec()[k].1[j],
    ensures
        matched_apps(lowercase(ps[i].1), patterns_spec()).contains(patterns_spec()[k].0),
        any_meeting(ps),
{
    containing_a_pattern_name_matches(lowercase(ps[i].1), patterns_spec(), k, j, x);
    assert(matched_apps(lowercase(ps[i].1), patterns_spec()).len() > 0);
}

/// `is_meeting_active` answers yes exactly when `get_active_meetings`
/// finds something, whatever the label and time it is given.
pub proof fn meeting_active_iff_some_detection(
    ps: Seq<(u32, Seq<char>)>,
    label: Seq<char>,
    now: u64,
)
    ensures
        any_meeting(ps) <==> all_detections(ps, label, now).len() > 0,
    decreases ps.len(),
{
    if ps.len() > 0 {
        let init = ps.drop_last();
        meeting_active_iff_some_detection(init, label, now);
        let last = ps.last();
        assert(detections_for(last, label, now).len() == matched_apps(
            lowercase(last.1),
            patterns_spec(),
        ).len());
        if any_meeting(ps) {
            let i = choose|i: int|
                0 <= i < ps.len() && #[trigger] matched_apps(lowercase(ps[i].1), patterns_spec()).len()
                    > 0;
            if i < init.len() {
                assert(init[i] == ps[i]);
                assert(any_meeting(init));
            } else {
                assert(ps[i] == last);
            }
        }
        if all_detections(ps, label, now).len() > 0 {
            if all_detections(init, label, now).len() > 0 {
                let j = choose|j: int|
                    0 <= j < init.len() && #[trigger] matched_apps(
                        lowercase(init[j].1),
                        patterns_spec(),
                    ).len() > 0;
                assert(init[j] == ps[j]);
            } else {
                assert(matched_apps(lowercase(ps[ps.len() - 1].1), patterns_spec()).len() > 0);
            }
        }
    }
}

/// With an empty history, `detect_meetings` reports every meeting that
/// `get_active_meetings` finds.
pub proof fn cleared_history_reports_every_meeting(
    ps: Seq<(u32, Seq<char>)>,
    label: Seq<char>,
    now: u64,
)
    ensures
        new_detections(Set::empty(), ps, label, now) == all_detections(ps, label, now),
{
    lemma_unseen_of_empty(all_detections(ps, label, now));
}


/// What to do when an application is detected.
#[derive(Clone, Copy, Debug, PartialEq, Eq, Structural)]
pub enum AppAction {
    AlwaysAsk,
    AutoRecord,
    Ignore,
}

/// The name of an action in settings and in the status list.
pub open spec fn action_name_of(a: AppAction) -> Seq<char> {
    match a {
        AppAction::AlwaysAsk => "always_ask"@,
        AppAction::AutoRecord => "auto_record"@,
        AppAction::Ignore => "ignore"@,
    }
}

/// The name of an action.
pub fn action_name(action: AppAction) -> (r: String)
    ensures
        r@ == action_name_of(action),
{
    match action {
        AppAction::AlwaysAsk => copy_str("always_ask"),
        AppAction::AutoRecord => copy_str("auto_record"),
        AppAction::Ignore => copy_str("ignore"),
    }
}

/// The action named by a lowercase name, if any.
pub open spec fn action_named(l: Seq<char>) -> Option<AppAction> {
    if l == "always_ask"@ || l == "ask"@ {
        Some(AppAction::AlwaysAsk)
    } else if l == "auto_record"@ || l == "auto"@ {
        Some(AppAction::AutoRecord)
    } else if l == "ignore"@ {
        Some(AppAction::Ignore)
    } else {
        None
    }
}

/// Reads an action name, in any case; an unknown name gives
/// "Unknown action: <name>".
pub fn parse_app_action(action: &str) -> (r: Result<AppAction, String>)
    ensures
        match action_named(lowercase(action@)) {
            Some(a) => r == Ok::<AppAction, String>(a),
            None => err_str(r) == Some("Unknown action: "@ + action@),
        },
{
    let lower = to_lowercase(action);
    let l = lower.as_str();
    if str_eq(l, "always_ask") || str_eq(l, "ask") {
        Ok(AppAction::AlwaysAsk)
    } else if str_eq(l, "auto_record") || str_eq(l, "auto") {
        Ok(AppAction::AutoRecord)
    } else if str_eq(l, "ignore") {
        Ok(AppAction::Ignore)
    } else {
        let mut e = copy_str("Unknown action: ");
        push_str(&mut e, action);
        Err(e)
    }
}

/// The known application named by a lowercase name, if any.
pub open spec fn app_named(l: Seq<char>) -> Option<MeetingApp> {
    if l == "zoom"@ {
        Some(MeetingApp::Zoom)
    } else if l == "teams"@ || l == "microsoft_teams"@ {
        Some(MeetingApp::MicrosoftTeams)
    } else if l == "meet"@ || l == "google_meet"@ {
        Some(MeetingApp::GoogleMeet)
    } else if l == "webex"@ {
        Some(MeetingApp::Webex)
    } else if l == "slack"@ {
        Some(MeetingApp::Slack)
    } else if l == "discord"@ {
        Some(MeetingApp::Discord)
    } else if l == "skype"@ {
        Some(MeetingApp::Skype)
    } else {
        None
    }
}

/// Reads an application name, in any case; another name gives
/// `Unknown` with the lowercase name.
pub fn parse_meeting_app(name: &str) -> (r: MeetingApp)
    ensures
        match app_named(lowercase(name@)) {
            Some(a) => r == a,
            None => r matches MeetingApp::Unknown(n) && n@ == lowercase(name@),
        },
{
    let lower = to_lowercase(name);
    let l = lower.as_str();
    if str_eq(l, "zoom") {
        MeetingApp::Zoom
    } else if str_eq(l, "teams") || str_eq(l, "microsoft_teams") {
        MeetingApp::MicrosoftTeams
    } else if str_eq(l, "meet") || str_eq(l, "google_meet") {
        MeetingApp::GoogleMeet
    } else if str_eq(l, "webex") {
        MeetingApp::Webex
    } else if str_eq(l, "slack") {
        MeetingApp::Slack
    } else if str_eq(l, "discord") {
        MeetingApp::Discord
    } else if str_eq(l, "skype") {
        MeetingApp::Skype
    } else {
        MeetingApp::Unknown(lower)
    }
}

/// Which applications are watched.
pub struct MonitoredApps {
    pub zoom: bool,
    pub microsoft_teams: bool,
    pub google_meet: bool,
    pub webex: bool,
    pub slack: bool,
    pub discord: bool,
    pub skype: bool,
}

/// The flags of the known applications, in the order zoom, teams, meet,
/// webex, slack, discord, skype.
pub open spec fn flags_of(m: MonitoredApps) -> Seq<bool> {
    seq![m.zoom, m.microsoft_teams, m.google_meet, m.webex, m.slack, m.discord, m.skype]
}

/// The position of a known application in `flags_of`.
pub open spec fn app_index(a: MeetingApp) -> int {
    match a {
        MeetingApp::Zoom => 0,
        MeetingApp::MicrosoftTeams => 1,
        MeetingApp::GoogleMeet => 2,
        MeetingApp::Webex => 3,
        MeetingApp::Slack => 4,
        MeetingApp::Discord => 5,
        MeetingApp::Skype => 6,
        MeetingApp::Unknown(_) => -1,
    }
}

impl MonitoredApps {
    /// Turns the watching of the named application (in any case) on or off;
    /// another name gives "Unknown app: <name>" and changes nothing.
    pub fn set_app_monitoring(&mut self, meeting_app: &str, enabled: bool) -> (r: Result<(), String>)
        ensures
            match app_named(lowercase(meeting_app@)) {
                Some(a) => r is Ok && flags_of(*final(self)) == flags_of(*old(self)).update(
                    app_index(a),
                    enabled,
                ),
                None => err_str(r) == Some("Unknown app: "@ + meeting_app@) && *final(self)
                    == *old(self),
            },
    {
        let lower = to_lowercase(meeting_app);
        let l = lower.as_str();
        if str_eq(l, "zoom") {
            self.zoom = enabled;
        } else if str_eq(l, "teams") || str_eq(l, "microsoft_teams") {
            self.microsoft_teams = enabled;
        } else if str_eq(l, "meet") || str_eq(l, "google_meet") {
            self.google_meet = enabled;
        } else if str_eq(l, "webex") {
            self.webex = enabled;
        } else if str_eq(l, "slack") {
            self.slack = enabled;
        } else if str_eq(l, "discord") {
            self.discord = enabled;
        } else if str_eq(l, "skype") {
            self.skype = enabled;
        } else {
            let mut e = copy_str("Unknown app: ");
            push_str(&mut e, meeting_app);
            return Err(e);
        }
        assert(flags_of(*self) =~= flags_of(*old(self)).update(
            app_index(app_named(lowercase(meeting_app@)).unwrap()),
            enabled,
        ));
        Ok(())
    }
}

/// A watched application with its state, as shown to the user.
#[derive(Debug, Clone)]
pub struct MonitoredAppStatus {
    pub id: String,
    pub name: String,
    pub enabled: bool,
    /// "always_ask", "auto_record" or "ignore".
    pub action: String,
}

/// The ids of the known applications, in status order.
pub open spec fn status_ids() -> Seq<Seq<char>> {
    seq!["zoom"@, "microsoft_teams"@, "google_meet"@, "webex"@, "slack"@, "discord"@, "skype"@]
}

/// The known applications, in status order.
pub open spec fn known_apps() -> Seq<MeetingApp> {
    seq![
        MeetingApp::Zoom,
        MeetingApp::MicrosoftTeams,
        MeetingApp::GoogleMeet,
        MeetingApp::Webex,
        MeetingApp::Slack,
        MeetingApp::Discord,
        MeetingApp::Skype,
    ]
}

fn app_status(id: &str, app: MeetingApp, enabled: bool, action: AppAction) -> (r: MonitoredAppStatus)
    ensures
        r.id@ == id@,
        r.name@ == display_name_of(app),
        r.enabled == enabled,
        r.action@ == action_name_of(action),
{
    MonitoredAppStatus {
        id: copy_str(id),
        name: copy_str(app.display_name()),
        enabled,
        action: action_name(action),
    }
}

/// The state of every known application: its id, its shown name, whether
/// it is watched and its action (`actions` in status order).
pub fn get_monitored_apps_status(apps: &MonitoredApps, actions: [AppAction; 7]) -> (r: Vec<
    MonitoredAppStatus,
>)
    ensures
        r.len() == 7,
        forall|i: int|
            0 <= i < 7 ==> {
                &&& (#[trigger] r@[i]).id@ == status_ids()[i]
                &&& r@[i].name@ == display_name_of(known_apps()[i])
                &&& r@[i].enabled == flags_of(*apps)[i]
                &&& r@[i].action@ == action_name_of(actions@[i])
            },
{
    let mut v: Vec<MonitoredAppStatus> = Vec::new();
    v.push(app_status("zoom", MeetingApp::Zoom, apps.zoom, actions[0]));
    v.push(app_status("microsoft_teams", MeetingApp::MicrosoftTeams, apps.microsoft_teams, actions[1]));
    v.push(app_status("google_meet", MeetingApp::GoogleMeet, apps.google_meet, actions[2]));
    v.push(app_status("webex", MeetingApp::Webex, apps.webex, actions[3]));
    v.push(app_status("slack", MeetingApp::Slack, apps.slack, actions[4]));
    v.push(app_status("discord", MeetingApp::Discord, apps.discord, actions[5]));
    v.push(app_status("skype", MeetingApp::Skype, apps.skype, actions[6]));
    v
}

/// A detection as announced to the user interface.
#[derive(Debug, Clone)]
pub struct MeetingDetectedEvent {
    pub meeting: DetectedMeeting,
    /// "ask" or "auto_record".
    pub action: String,
}

/// What the detector announces for a detection of a watched (or not)
/// application with the given action: nothing, "auto_record" or "ask".
pub open spec fn announcement(monitored: bool, action: AppAction) -> Option<Seq<char>> {
    if !monitored {
        None
    } else {
        match action {
            AppAction::AutoRecord => Some("auto_record"@),
            AppAction::Ignore => None,
            AppAction::AlwaysAsk => Some("ask"@),
        }
    }
}

/// The event announced for a detection, if any.
pub fn meeting_detected_event(meeting: &DetectedMeeting, monitored: bool, action: AppAction) -> (r:
    Option<MeetingDetectedEvent>)
    ensures
        match announcement(monitored, action) {
            Some(a) => r matches Some(e) && e.action@ == a && detected_view(e.meeting)
                == detected_view(*meeting),
            None => r is None,
        },
{
    if !monitored {
        return None;
    }
    match action {
        AppAction::AutoRecord => Some(
            MeetingDetectedEvent { meeting: meeting.duplicate(), action: copy_str("auto_record") },
        ),
        AppAction::Ignore => None,
        AppAction::AlwaysAsk => Some(
            MeetingDetectedEvent { meeting: meeting.duplicate(), action: copy_str("ask") },
        ),
    }
}

/// The user's answer to a detection.
#[derive(Debug, Clone)]
pub enum UserResponseAction {
    StartRecording { meeting_name: String },
    Ignore,
    IgnoreAlways,
    AutoRecordAlways,
}

/// Reads the user's answer: "start_recording" (with the given meeting name,
/// or "Meeting"), "ignore", "ignore_always", "auto_record_always"; another
/// answer gives "Unknown action: <answer>".
pub fn parse_user_response(action: &str, meeting_name: Option<String>) -> (r: Result<
    UserResponseAction,
    String,
>)
    ensures
        action@ == "start_recording"@ ==> (r matches Ok(
            UserResponseAction::StartRecording { meeting_name: n },
        ) && n@ == (match meeting_name {
            Some(m) => m@,
            None => "Meeting"@,
        })),
        action@ == "ignore"@ ==> r matches Ok(UserResponseAction::Ignore),
        action@ == "ignore_always"@ ==> r matches Ok(UserResponseAction::IgnoreAlways),
        action@ == "auto_record_always"@ ==> r matches Ok(UserResponseAction::AutoRecordAlways),
        action@ != "start_recording"@ && action@ != "ignore"@ && action@ != "ignore_always"@ && action@
            != "auto_record_always"@ ==> err_str(r) == Some("Unknown action: "@ + action@),
{
    proof {
        reveal_strlit("start_recording");
        reveal_strlit("ignore");
        reveal_strlit("ignore_always");
        reveal_strlit("auto_record_always");
        assert("ignore"@.len() == 6);
        assert("start_recording"@.len() == 15);
        assert("ignore_always"@.len() == 13);
        assert("auto_record_always"@.len() == 18);
    }
    if str_eq(action, "start_recording") {
        let name = match meeting_name {
            Some(m) => m,
            None => copy_str("Meeting"),
        };
        Ok(UserResponseAction::StartRecording { meeting_name: name })
    } else if str_eq(action, "ignore") {
        Ok(UserResponseAction::Ignore)
    } else if str_eq(action, "ignore_always") {
        Ok(UserResponseAction::IgnoreAlways)
    } else if str_eq(action, "auto_record_always") {
        Ok(UserResponseAction::AutoRecordAlways)
    } else {
        let mut e = copy_str("Unknown action: ");
        push_str(&mut e, action);
        Err(e)
    }
}

/// Commands to the detector loop; `S` is the settings type.
#[derive(Debug)]
pub enum DetectorCommand<S> {
    Start,
    Stop,
    UpdateSettings(S),
    UserResponse { pid: u32, action: UserResponseAction },
    CheckNow,
}

/// Acts on the user's answer: ignoring remembers the process as reported;
/// starting a recording gives the meeting name to start it with.
pub fn handle_user_response(monitor: &mut ProcessMonitor, pid: u32, action: UserResponseAction) -> (r:
    Option<String>)
    ensures
        match action {
            UserResponseAction::StartRecording { meeting_name } => r matches Some(n) && n@
                == meeting_name@ && final(monitor)@ == old(monitor)@,
            UserResponseAction::Ignore => r is None && final(monitor)@ == old(monitor)@.insert(pid),
            UserResponseAction::IgnoreAlways => r is None && final(monitor)@ == old(monitor)@.insert(
                pid,
            ),
            UserResponseAction::AutoRecordAlways => r is None && final(monitor)@ == old(monitor)@,
        },
{
    match action {
        UserResponseAction::StartRecording { meeting_name } => Some(meeting_name),
        UserResponseAction::Ignore => {
            monitor.ignore_pid(pid);
            None
        },
        UserResponseAction::IgnoreAlways => {
            monitor.ignore_pid(pid);
            None
        },
        UserResponseAction::AutoRecordAlways => None,
    }
}


/// What the detector loop does on a tick of its interval.
#[derive(Clone, Copy, Debug, PartialEq, Eq, Structural)]
pub enum TickDecision {
    /// The detector was stopped: leave the loop.
    Stop,
    /// Detection is turned off: wait for the next tick.
    Skip,
    /// Look for meetings.
    Detect,
}

/// The detector stops once it no longer runs, skips while disabled, and
/// otherwise detects.
pub fn detector_tick(running: bool, enabled: bool) -> (r: TickDecision)
    ensures
        !running ==> r == TickDecision::Stop,
        running && !enabled ==> r == TickDecision::Skip,
        running && enabled ==> r == TickDecision::Detect,
{
    if !running {
        TickDecision::Stop
    } else if !enabled {
        TickDecision::Skip
    } else {
        TickDecision::Detect
    }
}

/// What the detector loop does with a command.
#[derive(Clone, Copy, Debug, PartialEq, Eq, Structural)]
pub enum CommandEffect {
    /// Leave the loop.
    Exit,
    /// Nothing to do.
    Nothing,
    /// Store the new settings, restarting the interval when its length
    /// changed.
    ApplySettings { restart_interval: bool },
    /// Act on the user's answer.
    Respond,
    /// Check at once.
    CheckNow,
}

/// The effect of a command, given the interval (in seconds) of the
/// settings in force and, for new settings, theirs.
pub fn command_effect<S>(cmd: &DetectorCommand<S>, current_interval: u32, new_interval: u32) -> (r:
    CommandEffect)
    ensures
        match cmd {
            DetectorCommand::Stop => r == CommandEffect::Exit,
            DetectorCommand::Start => r == CommandEffect::Nothing,
            DetectorCommand::UpdateSettings(_) => r == (CommandEffect::ApplySettings {
                restart_interval: new_interval != current_interval,
            }),
            DetectorCommand::UserResponse { .. } => r == CommandEffect::Respond,
            DetectorCommand::CheckNow => r == CommandEffect::CheckNow,
        },
{
    match cmd {
        DetectorCommand::Stop => CommandEffect::Exit,
        DetectorCommand::Start => CommandEffect::Nothing,
        DetectorCommand::UpdateSettings(_) => CommandEffect::ApplySettings {
            restart_interval: new_interval != current_interval,
        },
        DetectorCommand::UserResponse { .. } => CommandEffect::Respond,
        DetectorCommand::CheckNow => CommandEffect::CheckNow,
    }
}

} // verus!
