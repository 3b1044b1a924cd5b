//! TLS/HTTP fingerprint profiles of real browsers and the ordered request
//! headers each one sends.

use vstd::prelude::*;
use crate::text::{lowercase, to_lower, owned, str_eq, ascii_text, ascii_lower};
use crate::assoc::{entries_view, lookup, assoc_insert_spec, assoc_insert, get_value, keys_unique, lemma_insert};

verus! {

/// HTTP/2 SETTINGS frame parameters of a browser.
#[derive(Debug, Clone, Copy, PartialEq, Eq, Structural)]
pub struct Http2Settings {
    pub header_table_size: u32,
    pub enable_push: bool,
    pub max_concurrent_streams: u32,
    pub initial_window_size: u32,
    pub max_frame_size: u32,
    pub max_header_list_size: u32,
}

impl Default for Http2Settings {
    fn default() -> (r: Self)
        ensures
            r == chrome_http2(),
    {
        chrome_http2_exec()
    }
}

/// Chrome's HTTP/2 settings.
pub open spec fn chrome_http2() -> Http2Settings {
    Http2Settings {
        header_table_size: 65536,
        enable_push: false,
        max_concurrent_streams: 1000,
        initial_window_size: 6291456,
        max_frame_size: 16384,
        max_header_list_size: 262144,
    }
}

fn chrome_http2_exec() -> (r: Http2Settings)
    ensures
        r == chrome_http2(),
{
    Http2Settings {
        header_table_size: 65536,
        enable_push: false,
        max_concurrent_streams: 1000,
        initial_window_size: 6291456,
        max_frame_size: 16384,
        max_header_list_size: 262144,
    }
}

/// A complete TLS/HTTP fingerprint profile of one browser version.
#[derive(Debug, Clone)]
pub struct TlsProfile {
    /// Human-readable profile name, e.g. "Chrome 131 Windows".
    pub name: String,
    pub user_agent: String,
    pub ja3_hash: String,
    pub ja4_hash: Option<String>,
    pub http2_settings: Http2Settings,
    /// Order of HTTP headers as sent by the browser.
    pub header_order: Vec<String>,
    pub accept_header: String,
    pub accept_language: String,
    pub accept_encoding: String,
    /// `Sec-CH-UA` client hint (Chromium-based only).
    pub sec_ch_ua: Option<String>,
    /// `Sec-CH-UA-Platform` client hint (Chromium-based only).
    pub sec_ch_ua_platform: Option<String>,
}

/// The character-level content of a profile.
pub struct TlsProfileView {
    pub name: Seq<char>,
    pub user_agent: Seq<char>,
    pub ja3_hash: Seq<char>,
    pub ja4_hash: Option<Seq<char>>,
    pub http2_settings: Http2Settings,
    pub header_order: Seq<Seq<char>>,
    pub accept_header: Seq<char>,
    pub accept_language: Seq<char>,
    pub accept_encoding: Seq<char>,
    pub sec_ch_ua: Option<Seq<char>>,
    pub sec_ch_ua_platform: Option<Seq<char>>,
}

/// The characters of an optional string.
pub open spec fn opt_view(o: Option<String>) -> Option<Seq<char>> {
    match o {
        Some(s) => Some(s@),
        None => None,
    }
}

/// The characters of each string.
pub open spec fn strings_view(v: Seq<String>) -> Seq<Seq<char>> {
    v.map_values(|s: String| s@)
}

impl View for TlsProfile {
    type V = TlsProfileView;

    open spec fn view(&self) -> TlsProfileView {
        TlsProfileView {
            name: self.name@,
            user_agent: self.user_agent@,
            ja3_hash: self.ja3_hash@,
            ja4_hash: opt_view(self.ja4_hash),
            http2_settings: self.http2_settings,
            header_order: strings_view(self.header_order@),
            accept_header: self.accept_header@,
            accept_language: self.accept_language@,
            accept_encoding: self.accept_encoding@,
            sec_ch_ua: opt_view(self.sec_ch_ua),
            sec_ch_ua_platform: opt_view(self.sec_ch_ua_platform),
        }
    }
}

fn strings_of(v: Vec<&str>) -> (r: Vec<String>)
    ensures
        strings_view(r@) == v@.map_values(|s: &str| s@),
{
    let mut r: Vec<String> = Vec::new();
    let mut i: usize = 0;
    while i < v.len()
        invariant
            i <= v.len(),
            strings_view(r@) == v@.take(i as int).map_values(|s: &str| s@),
        decreases v.len() - i,
    {
        let ghost before = r@;
        r.push(owned(v[i]));
        assert(strings_view(r@) =~= strings_view(before).push(v@[i as int]@));
        assert(v@.take(i + 1).map_values(|s: &str| s@) =~= v@.take(i as int).map_values(
            |s: &str| s@,
        ).push(v@[i as int]@));
        i += 1;
    }
    assert(v@.take(i as int) =~= v@);
    r
}

// ---------------------------------------------------------------------------
// Built-in profiles
// ---------------------------------------------------------------------------

/// Header order of Chrome 131.
pub open spec fn chrome_header_order() -> Seq<Seq<char>> {
    seq![
        "Host"@, "Connection"@, "sec-ch-ua"@, "sec-ch-ua-mobile"@, "sec-ch-ua-platform"@,
        "Upgrade-Insecure-Requests"@, "User-Agent"@, "Accept"@, "Sec-Fetch-Site"@,
        "Sec-Fetch-Mode"@, "Sec-Fetch-User"@, "Sec-Fetch-Dest"@, "Accept-Encoding"@,
        "Accept-Language"@,
    ]
}

fn chrome_header_order_exec() -> (r: Vec<String>)
    ensures
        strings_view(r@) == chrome_header_order(),
{
    let v = vec![
        "Host", "Connection", "sec-ch-ua", "sec-ch-ua-mobile", "sec-ch-ua-platform",
        "Upgrade-Insecure-Requests", "User-Agent", "Accept", "Sec-Fetch-Site",
        "Sec-Fetch-Mode", "Sec-Fetch-User", "Sec-Fetch-Dest", "Accept-Encoding",
        "Accept-Language",
    ];
    assert(v@.map_values(|s: &str| s@) =~= chrome_header_order());
    strings_of(v)
}

/// The Chrome 131 profile, on Windows or macOS.
pub open spec fn chrome_131_view(mac: bool) -> TlsProfileView {
    TlsProfileView {
        name: if mac { "Chrome 131 macOS"@ } else { "Chrome 131 Windows"@ },
        user_agent: if mac {
            "Mozilla/5.0 (Macintosh; Intel Mac OS X 10_15_7) AppleWebKit/537.36 (KHTML, like Gecko) Chrome/131.0.0.0 Safari/537.36"@
        } else {
            "Mozilla/5.0 (Windows NT 10.0; Win64; x64) AppleWebKit/537.36 (KHTML, like Gecko) Chrome/131.0.0.0 Safari/537.36"@
        },
        ja3_hash: "cd08e31494f9531f560d64c695473da9"@,
        ja4_hash: Some("t13d1516h2_8daaf6152771_b0da82dd1658"@),
        http2_settings: chrome_http2(),
        header_order: chrome_header_order(),
        accept_header: "text/html,application/xhtml+xml,application/xml;q=0.9,image/avif,image/webp,image/apng,*/*;q=0.8"@,
        accept_language: "en-US,en;q=0.9"@,
        accept_encoding: "gzip, deflate, br, zstd"@,
        sec_ch_ua: Some(
            "\"Google Chrome\";v=\"131\", \"Chromium\";v=\"131\", \"Not_A Brand\";v=\"24\""@,
        ),
        sec_ch_ua_platform: Some(if mac { "\"macOS\""@ } else { "\"Windows\""@ }),
    }
}

fn chrome_131(mac: bool) -> (p: TlsProfile)
    ensures
        p@ == chrome_131_view(mac),
{
    TlsProfile {
        name: if mac { owned("Chrome 131 macOS") } else { owned("Chrome 131 Windows") },
        user_agent: if mac {
            owned("Mozilla/5.0 (Macintosh; Intel Mac OS X 10_15_7) AppleWebKit/537.36 (KHTML, like Gecko) Chrome/131.0.0.0 Safari/537.36")
        } else {
            owned("Mozilla/5.0 (Windows NT 10.0; Win64; x64) AppleWebKit/537.36 (KHTML, like Gecko) Chrome/131.0.0.0 Safari/537.36")
        },
        ja3_hash: owned("cd08e31494f9531f560d64c695473da9"),
        ja4_hash: Some(owned("t13d1516h2_8daaf6152771_b0da82dd1658")),
        http2_settings: chrome_http2_exec(),
        header_order: chrome_header_order_exec(),
        accept_header: owned("text/html,application/xhtml+xml,application/xml;q=0.9,image/avif,image/webp,image/apng,*/*;q=0.8"),
        accept_language: owned("en-US,en;q=0.9"),
        accept_encoding: owned("gzip, deflate, br, zstd"),
        sec_ch_ua: Some(
            owned("\"Google Chrome\";v=\"131\", \"Chromium\";v=\"131\", \"Not_A Brand\";v=\"24\""),
        ),
        sec_ch_ua_platform: Some(if mac { owned("\"macOS\"") } else { owned("\"Windows\"") }),
    }
}

/// The profile of Chrome 131 on Windows 10/11.
pub fn chrome_131_profile() -> (p: TlsProfile)
    ensures
        p@ == chrome_131_view(false),
{
    chrome_131(false)
}

/// The profile of Chrome 131 on macOS.
pub fn chrome_131_mac_profile() -> (p: TlsProfile)
    ensures
        p@ == chrome_131_view(true),
{
    chrome_131(true)
}

/// The Firefox 132 profile.
pub open spec fn firefox_132_view() -> TlsProfileView {
    TlsProfileView {
        name: "Firefox 132"@,
        user_agent: "Mozilla/5.0 (Windows NT 10.0; Win64; x64; rv:132.0) Gecko/20100101 Firefox/132.0"@,
        ja3_hash: "579ccef312d18482fc42e2b822ca2430"@,
        ja4_hash: Some("t13d1715h2_5b57614c22b0_3d5424432f57"@),
        http2_settings: Http2Settings {
            header_table_size: 65536,
            enable_push: false,
            max_concurrent_streams: 100,
            initial_window_size: 131072,
            max_frame_size: 16384,
            max_header_list_size: 65536,
        },
        header_order: seq![
            "Host"@, "User-Agent"@, "Accept"@, "Accept-Language"@, "Accept-Encoding"@,
            "Connection"@, "Upgrade-Insecure-Requests"@, "Sec-Fetch-Dest"@, "Sec-Fetch-Mode"@,
            "Sec-Fetch-Site"@, "Sec-Fetch-User"@, "Priority"@,
        ],
        accept_header: "text/html,application/xhtml+xml,application/xml;q=0.9,image/avif,image/webp,*/*;q=0.8"@,
        accept_language: "en-US,en;q=0.5"@,
        accept_encoding: "gzip, deflate, br, zstd"@,
        sec_ch_ua: None,
        sec_ch_ua_platform: None,
    }
}

/// The profile of Firefox 132.
pub fn firefox_132_profile() -> (p: TlsProfile)
    ensures
        p@ == firefox_132_view(),
{
    let order = vec![
        "Host", "User-Agent", "Accept", "Accept-Language", "Accept-Encoding", "Connection",
        "Upgrade-Insecure-Requests", "Sec-Fetch-Dest", "Sec-Fetch-Mode", "Sec-Fetch-Site",
        "Sec-Fetch-User", "Priority",
    ];
    assert(order@.map_values(|s: &str| s@) =~= firefox_132_view().header_order);
    TlsProfile {
        name: owned("Firefox 132"),
        user_agent: owned("Mozilla/5.0 (Windows NT 10.0; Win64; x64; rv:132.0) Gecko/20100101 Firefox/132.0"),
        ja3_hash: owned("579ccef312d18482fc42e2b822ca2430"),
        ja4_hash: Some(owned("t13d1715h2_5b57614c22b0_3d5424432f57")),
        http2_settings: Http2Settings {
            header_table_size: 65536,
            enable_push: false,
            max_concurrent_streams: 100,
            initial_window_size: 131072,
            max_frame_size: 16384,
            max_header_list_size: 65536,
        },
        header_order: strings_of(order),
        accept_header: owned("text/html,application/xhtml+xml,application/xml;q=0.9,image/avif,image/webp,*/*;q=0.8"),
        accept_language: owned("en-US,en;q=0.5"),
        accept_encoding: owned("gzip, deflate, br, zstd"),
        sec_ch_ua: None,
        sec_ch_ua_platform: None,
    }
}

/// The Safari 18 profile.
pub open spec fn safari_18_view() -> TlsProfileView {
    TlsProfileView {
        name: "Safari 18"@,
        user_agent: "Mozilla/5.0 (Macintosh; Intel Mac OS X 10_15_7) AppleWebKit/605.1.15 (KHTML, like Gecko) Version/18.0 Safari/605.1.15"@,
        ja3_hash: "773906b0efdefa24a7f2b8eb6985bf37"@,
        ja4_hash: Some("t13d1715h2_5b57614c22b0_06cda9e17597"@),
        http2_settings: Http2Settings {
            header_table_size: 4096,
            enable_push: false,
            max_concurrent_streams: 100,
            initial_window_size: 2097152,
            max_frame_size: 16384,
            max_header_list_size: 32768,
        },
        header_order: seq![
            "Host"@, "Accept"@, "Accept-Language"@, "Connection"@, "Accept-Encoding"@,
            "User-Agent"@,
        ],
        accept_header: "text/html,application/xhtml+xml,application/xml;q=0.9,*/*;q=0.8"@,
        accept_language: "en-US,en;q=0.9"@,
        accept_encoding: "gzip, deflate, br"@,
        sec_ch_ua: None,
        sec_ch_ua_platform: None,
    }
}

/// The profile of Safari 18 on macOS.
pub fn safari_18_profile() -> (p: TlsProfile)
    ensures
        p@ == safari_18_view(),
{
    let order = vec![
        "Host", "Accept", "Accept-Language", "Connection", "Accept-Encoding", "User-Agent",
    ];
    assert(order@.map_values(|s: &str| s@) =~= safari_18_view().header_order);
    TlsProfile {
        name: owned("Safari 18"),
        user_agent: owned("Mozilla/5.0 (Macintosh; Intel Mac OS X 10_15_7) AppleWebKit/605.1.15 (KHTML, like Gecko) Version/18.0 Safari/605.1.15"),
        ja3_hash: owned("773906b0efdefa24a7f2b8eb6985bf37"),
        ja4_hash: Some(owned("t13d1715h2_5b57614c22b0_06cda9e17597")),
        http2_settings: Http2Settings {
            header_table_size: 4096,
            enable_push: false,
            max_concurrent_streams: 100,
            initial_window_size: 2097152,
            max_frame_size: 16384,
            max_header_list_size: 32768,
        },
        header_order: strings_of(order),
        accept_header: owned("text/html,application/xhtml+xml,application/xml;q=0.9,*/*;q=0.8"),
        accept_language: owned("en-US,en;q=0.9"),
        accept_encoding: owned("gzip, deflate, br"),
        sec_ch_ua: None,
        sec_ch_ua_platform: None,
    }
}

/// The built-in profiles, in order.
pub open spec fn all_profiles_view() -> Seq<TlsProfileView> {
    seq![chrome_131_view(false), chrome_131_view(true), firefox_132_view(), safari_18_view()]
}

/// All built-in profiles.
pub fn all_profiles() -> (r: Vec<TlsProfile>)
    ensures
        r@.map_values(|p: TlsProfile| p@) == all_profiles_view(),
{
    let r = vec![
        chrome_131_profile(),
        chrome_131_mac_profile(),
        firefox_132_profile(),
        safari_18_profile(),
    ];
    assert(r@.map_values(|p: TlsProfile| p@) =~= all_profiles_view());
    r
}

/// `rand::thread_rng().gen_range(lo..hi)`: a random number in `lo .. hi`;
/// which one is left open.
#[verifier::external_body]
pub(crate) fn random_range(lo: u64, hi: u64) -> (r: u64)
    requires
        lo < hi,
    ensures
        lo <= r < hi,
{
    rand::Rng::gen_range(&mut rand::thread_rng(), lo..hi)
}

/// One of the built-in profiles, picked at random.
pub fn random_profile() -> (p: TlsProfile)
    ensures
        all_profiles_view().contains(p@),
{
    let mut profiles = all_profiles();
    let ghost pv = profiles@.map_values(|p: TlsProfile| p@);
    assert(pv.len() == profiles@.len());
    let idx = random_range(0, profiles.len() as u64) as usize;
    let p = profiles.remove(idx);
    assert(pv[idx as int] == p@);
    p
}

/// Index of the first built-in profile whose lower-cased name equals the
/// lower-cased `name`.
pub open spec fn profile_index(ps: Seq<TlsProfileView>, name: Seq<char>) -> Option<int>
    decreases ps.len(),
{
    if ps.len() == 0 {
        None
    } else {
        match profile_index(ps.drop_last(), name) {
            Some(i) => Some(i),
            None => if lowercase(ps.last().name) == lowercase(name) {
                Some(ps.len() - 1)
            } else {
                None
            },
        }
    }
}

/// The built-in profile whose name matches `name`, ignoring case.
pub fn profile_by_name(name: &str) -> (r: Option<TlsProfile>)
    ensures
        match profile_index(all_profiles_view(), name@) {
            Some(i) => r is Some && r->0@ == all_profiles_view()[i],
            None => r is None,
        },
{
    let lower = to_lower(name);
    let mut profiles = all_profiles();
    let ghost pv = profiles@.map_values(|p: TlsProfile| p@);
    let mut i: usize = 0;
    assert(pv.take(0) =~= Seq::<TlsProfileView>::empty());
    while i < profiles.len()
        invariant
            i <= profiles.len(),
            profiles@.map_values(|p: TlsProfile| p@) == pv,
            pv == all_profiles_view(),
            lower@ == lowercase(name@),
            profile_index(pv.take(i as int), name@) is None,
        decreases profiles.len() - i,
    {
        let pl = to_lower(profiles[i].name.as_str());
        assert(pv.take(i + 1).drop_last() =~= pv.take(i as int));
        assert(pv.take(i + 1).last() == profiles@[i as int]@);
        if str_eq(pl.as_str(), lower.as_str()) {
            proof { lemma_profile_index_prefix(pv, name@, i as int + 1, i as int); }
            let p = profiles.remove(i);
            return Some(p);
        }
        i += 1;
    }
    assert(pv.take(i as int) =~= pv);
    None
}

proof fn lemma_profile_index_prefix(ps: Seq<TlsProfileView>, name: Seq<char>, n: int, i: int)
    requires
        0 < n <= ps.len(),
        profile_index(ps.take(n), name) == Some(i),
    ensures
        profile_index(ps, name) == Some(i),
    decreases ps.len() - n,
{
    if n < ps.len() {
        assert(ps.take(n + 1).drop_last() =~= ps.take(n));
        lemma_profile_index_prefix(ps, name, n + 1, i);
    } else {
        assert(ps.take(n) =~= ps);
    }
}

// ---------------------------------------------------------------------------
// Header generation
// ---------------------------------------------------------------------------

/// The header values a profile defines, keyed by lower-cased header name.
pub open spec fn profile_header_values(p: TlsProfileView) -> Seq<(Seq<char>, Seq<char>)> {
    let base = assoc_insert_spec(
        assoc_insert_spec(
            assoc_insert_spec(
                assoc_insert_spec(Seq::empty(), "user-agent"@, p.user_agent),
                "accept"@,
                p.accept_header,
            ),
            "accept-language"@,
            p.accept_language,
        ),
        "accept-encoding"@,
        p.accept_encoding,
    );
    let with_ua = match p.sec_ch_ua {
        Some(v) => assoc_insert_spec(base, "sec-ch-ua"@, v),
        None => base,
    };
    match p.sec_ch_ua_platform {
        Some(v) => assoc_insert_spec(with_ua, "sec-ch-ua-platform"@, v),
        None => with_ua,
    }
}

/// The headers sent, in the profile's order: each header of `order` whose
/// lower-cased name has a value, paired with that value.
pub open spec fn ordered_headers(
    order: Seq<Seq<char>>,
    values: Seq<(Seq<char>, Seq<char>)>,
) -> Seq<(Seq<char>, Seq<char>)>
    decreases order.len(),
{
    if order.len() == 0 {
        Seq::empty()
    } else {
        let rest = ordered_headers(order.drop_last(), values);
        match lookup(values, lowercase(order.last())) {
            Some(v) => rest.push((order.last(), v)),
            None => rest,
        }
    }
}

fn insert_lower(m: &mut Vec<(String, String)>, key: &str, v: &String)
    requires
        ascii_text(key@),
    ensures
        entries_view(final(m)@) == assoc_insert_spec(entries_view(old(m)@), key@.map_values(|c: char| ascii_lower(c)), v@),
{
    assoc_insert(m, to_lower(key), v.clone());
}

/// The headers of `profile` in the order the browser sends them; headers
/// the profile has no value for (such as `sec-ch-ua` for Firefox) are left
/// out.
pub fn apply_profile_headers(profile: &TlsProfile) -> (r: Vec<(String, String)>)
    ensures
        entries_view(r@) == ordered_headers(profile@.header_order, profile_header_values(profile@)),
{
    let mut m: Vec<(String, String)> = Vec::new();
    assert(entries_view(m@) =~= Seq::<(Seq<char>, Seq<char>)>::empty());
    proof {
        reveal_strlit("User-Agent");
        reveal_strlit("user-agent");
        reveal_strlit("Accept");
        reveal_strlit("accept");
        reveal_strlit("Accept-Language");
        reveal_strlit("accept-language");
        reveal_strlit("Accept-Encoding");
        reveal_strlit("accept-encoding");
        reveal_strlit("sec-ch-ua");
        reveal_strlit("sec-ch-ua-platform");
        assert("User-Agent"@.map_values(|c: char| ascii_lower(c)) =~= "user-agent"@);
        assert("Accept"@.map_values(|c: char| ascii_lower(c)) =~= "accept"@);
        assert("Accept-Language"@.map_values(|c: char| ascii_lower(c)) =~= "accept-language"@);
        assert("Accept-Encoding"@.map_values(|c: char| ascii_lower(c)) =~= "accept-encoding"@);
        assert("sec-ch-ua"@.map_values(|c: char| ascii_lower(c)) =~= "sec-ch-ua"@);
        assert("sec-ch-ua-platform"@.map_values(|c: char| ascii_lower(c)) =~= "sec-ch-ua-platform"@);
    }
    insert_lower(&mut m, "User-Agent", &profile.user_agent);
    insert_lower(&mut m, "Accept", &profile.accept_header);
    insert_lower(&mut m, "Accept-Language", &profile.accept_language);
    insert_lower(&mut m, "Accept-Encoding", &profile.accept_encoding);
    match &profile.sec_ch_ua {
        Some(v) => insert_lower(&mut m, "sec-ch-ua", v),
        None => {},
    }
    match &profile.sec_ch_ua_platform {
        Some(v) => insert_lower(&mut m, "sec-ch-ua-platform", v),
        None => {},
    }
    assert(entries_view(m@) == profile_header_values(profile@));
    let ghost order = profile@.header_order;
    let mut r: Vec<(String, String)> = Vec::new();
    let mut i: usize = 0;
    assert(order.take(0) =~= Seq::<Seq<char>>::empty());
    assert(entries_view(r@) =~= Seq::<(Seq<char>, Seq<char>)>::empty());
    while i < profile.header_order.len()
        invariant
            i <= profile.header_order.len(),
            order == strings_view(profile.header_order@),
            entries_view(m@) == profile_header_values(profile@),
            entries_view(r@) == ordered_headers(order.take(i as int), entries_view(m@)),
        decreases profile.header_order.len() - i,
    {
        let key = &profile.header_order[i];
        let lk = to_lower(key.as_str());
        assert(order.take(i + 1).drop_last() =~= order.take(i as int));
        assert(order.take(i + 1).last() == key@);
        let ghost before = entries_view(r@);
        match get_value(&m, lk.as_str()) {
            Some(v) => {
                r.push((key.clone(), v));
                assert(entries_view(r@) =~= before.push((key@, v@)));
            },
            None => {},
        }
        i += 1;
    }
    assert(order.take(i as int) =~= order);
    r
}

/// Every header sent comes from the profile's header order and carries the
/// value the profile defines for it.
pub proof fn lemma_headers_follow_profile(order: Seq<Seq<char>>, values: Seq<(Seq<char>, Seq<char>)>)
    ensures
        forall|i: int| 0 <= i < ordered_headers(order, values).len() ==> {
            let h = #[trigger] ordered_headers(order, values)[i];
            order.contains(h.0) && lookup(values, lowercase(h.0)) == Some(h.1)
        },
        ordered_headers(order, values).len() <= order.len(),
    decreases order.len(),
{
    if order.len() > 0 {
        lemma_headers_follow_profile(order.drop_last(), values);
        let rest = ordered_headers(order.drop_last(), values);
        assert forall|i: int| 0 <= i < rest.len() implies order.contains(#[trigger] rest[i].0) by {
            let k = choose|k: int| 0 <= k < order.drop_last().len() && order.drop_last()[k] == rest[i].0;
            assert(order[k] == order.drop_last()[k]);
        }
        assert(order[order.len() - 1] == order.last());
    }
}

proof fn lemma_header_names_distinct()
    ensures
        "user-agent"@ != "accept"@,
        "user-agent"@ != "accept-language"@,
        "user-agent"@ != "accept-encoding"@,
        "user-agent"@ != "sec-ch-ua"@,
        "user-agent"@ != "sec-ch-ua-platform"@,
        "accept"@ != "accept-language"@,
        "accept"@ != "accept-encoding"@,
        "accept"@ != "sec-ch-ua"@,
        "accept"@ != "sec-ch-ua-platform"@,
        "accept-language"@ != "accept-encoding"@,
        "accept-language"@ != "sec-ch-ua"@,
        "accept-language"@ != "sec-ch-ua-platform"@,
        "accept-encoding"@ != "sec-ch-ua"@,
        "accept-encoding"@ != "sec-ch-ua-platform"@,
        "sec-ch-ua"@ != "sec-ch-ua-platform"@,
{
    reveal_strlit("user-agent");
    reveal_strlit("accept");
    reveal_strlit("accept-language");
    reveal_strlit("accept-encoding");
    reveal_strlit("sec-ch-ua");
    reveal_strlit("sec-ch-ua-platform");
    assert("accept-language"@[7] != "accept-encoding"@[7]);
    assert("user-agent"@.len() == 10);
    assert("accept"@.len() == 6);
    assert("accept-language"@.len() == 15);
    assert("accept-encoding"@.len() == 15);
    assert("sec-ch-ua"@.len() == 9);
    assert("sec-ch-ua-platform"@.len() == 18);
    assert("user-agent"@[0] != "accept"@[0]);
}

/// What a profile's header map holds under each header name: the profile
/// field of that name.
proof fn lemma_profile_values(p: TlsProfileView)
    ensures
        keys_unique(profile_header_values(p)),
        lookup(profile_header_values(p), "user-agent"@) == Some(p.user_agent),
        lookup(profile_header_values(p), "accept"@) == Some(p.accept_header),
        lookup(profile_header_values(p), "accept-language"@) == Some(p.accept_language),
        lookup(profile_header_values(p), "accept-encoding"@) == Some(p.accept_encoding),
        lookup(profile_header_values(p), "sec-ch-ua"@) == p.sec_ch_ua,
        lookup(profile_header_values(p), "sec-ch-ua-platform"@) == p.sec_ch_ua_platform,
{
    lemma_header_names_distinct();
    let e = Seq::<(Seq<char>, Seq<char>)>::empty();
    let m1 = assoc_insert_spec(e, "user-agent"@, p.user_agent);
    let m2 = assoc_insert_spec(m1, "accept"@, p.accept_header);
    let m3 = assoc_insert_spec(m2, "accept-language"@, p.accept_language);
    let m4 = assoc_insert_spec(m3, "accept-encoding"@, p.accept_encoding);
    assert(lookup(e, "sec-ch-ua"@) is None);
    assert(lookup(e, "sec-ch-ua-platform"@) is None);
    lemma_insert(e, "user-agent"@, p.user_agent);
    lemma_insert(m1, "accept"@, p.accept_header);
    lemma_insert(m2, "accept-language"@, p.accept_language);
    lemma_insert(m3, "accept-encoding"@, p.accept_encoding);
    let m5 = match p.sec_ch_ua {
        Some(v) => assoc_insert_spec(m4, "sec-ch-ua"@, v),
        None => m4,
    };
    if let Some(v) = p.sec_ch_ua {
        lemma_insert(m4, "sec-ch-ua"@, v);
    }
    if let Some(v) = p.sec_ch_ua_platform {
        lemma_insert(m5, "sec-ch-ua-platform"@, v);
    }
}

/// Each header sent carries the profile field of its name: a header whose
/// lower-cased name is `accept` carries the profile's Accept value,
/// `accept-language` its language list, `accept-encoding` its encodings,
/// `user-agent` its user agent, and `sec-ch-ua` / `sec-ch-ua-platform`
/// the client hints the profile has.
pub proof fn lemma_headers_carry_their_fields(p: TlsProfileView)
    ensures
        forall|i: int| 0 <= i < ordered_headers(p.header_order, profile_header_values(p)).len() ==> {
            let h = #[trigger] ordered_headers(p.header_order, profile_header_values(p))[i];
            &&& lowercase(h.0) == "user-agent"@ ==> h.1 == p.user_agent
            &&& lowercase(h.0) == "accept"@ ==> h.1 == p.accept_header
            &&& lowercase(h.0) == "accept-language"@ ==> h.1 == p.accept_language
            &&& lowercase(h.0) == "accept-encoding"@ ==> h.1 == p.accept_encoding
            &&& lowercase(h.0) == "sec-ch-ua"@ ==> p.sec_ch_ua == Some(h.1)
            &&& lowercase(h.0) == "sec-ch-ua-platform"@ ==> p.sec_ch_ua_platform == Some(h.1)
        },
{
    lemma_profile_values(p);
    lemma_headers_follow_profile(p.header_order, profile_header_values(p));
}

} // verus!
