//! Service identification from well-known ports and response banners.
use vstd::prelude::*;
use crate::network::{get_service_name, service_name_spec, str_view, Protocol};
use crate::text::{
    chars_of, contains, contains_seq, find, first_index, has_char, has_char_exec, is_digit,
    join_spaced, lemma_first_unique, line_end, line_end_from, lower_of, lowercase, push_all,
    same_chars, slice_of, split_tokens, starts_with, starts_with_seq, string_of, tokens, trim,
    trim_chars, white_from, white_index,
};
use crate::utils::TimeSpan;
use vstd::utf8::{decode_utf8, valid_utf8};

verus! {

/// An identified service.
#[derive(Debug, Clone)]
pub struct ServiceInfo {
    pub name: String,
    pub version: Option<String>,
    /// The banner as received, case kept.
    pub banner: Option<String>,
    /// Certainty from 0 to 100; informational only.
    pub confidence: u8,
}

pub open spec fn opt_view(o: Option<String>) -> Option<Seq<char>> {
    match o {
        Some(s) => Some(s@),
        None => None,
    }
}

impl View for ServiceInfo {
    type V = (Seq<char>, Option<Seq<char>>, Option<Seq<char>>, u8);

    open spec fn view(&self) -> Self::V {
        (self.name@, opt_view(self.version), opt_view(self.banner), self.confidence)
    }
}

pub open spec fn service_view(o: Option<ServiceInfo>) -> Option<
    (Seq<char>, Option<Seq<char>>, Option<Seq<char>>, u8),
> {
    match o {
        Some(s) => Some(s@),
        None => None,
    }
}

impl ServiceInfo {
    pub open spec fn display_spec(self) -> Seq<char> {
        match self.version {
            Some(v) => self.name@ + " "@ + v@,
            None => self.name@,
        }
    }

    /// The name, followed by the version when there is one.
    pub fn display_string(&self) -> (r: String)
        ensures
            r@ == self.display_spec(),
    {
        match &self.version {
            Some(version) => self.name.clone().concat(" ").concat(version.as_str()),
            None => self.name.clone(),
        }
    }
}

/// The number of bytes of the UTF-8 encoding of `s`.
pub open spec fn utf8_len(s: Seq<char>) -> nat
    decreases s.len(),
{
    if s.len() == 0 {
        0
    } else {
        let u = s.last() as u32;
        utf8_len(s.drop_last()) + if u < 0x80 {
            1nat
        } else if u < 0x800 {
            2nat
        } else if u < 0x10000 {
            3nat
        } else {
            4nat
        }
    }
}

proof fn lemma_utf8_len_grows(s: Seq<char>, k: int)
    requires
        0 <= k <= s.len(),
    ensures
        utf8_len(s.take(k)) <= utf8_len(s),
    decreases s.len(),
{
    if k < s.len() {
        lemma_utf8_len_grows(s.drop_last(), k);
        assert(s.drop_last().take(k) =~= s.take(k));
    } else {
        assert(s.take(k) =~= s);
    }
}

/// Whether the UTF-8 encoding of `s` takes more than `n` bytes.
fn utf8_len_over(s: &Vec<char>, n: usize) -> (r: bool)
    ensures
        r == (utf8_len(s@) > n),
{
    let mut total: usize = 0;
    let mut i: usize = 0;
    while i < s.len()
        invariant
            i <= s.len(),
            total == utf8_len(s@.take(i as int)),
            total <= n,
        decreases s.len() - i,
    {
        let u = s[i] as u32;
        let w: usize = if u < 0x80 {
            1
        } else if u < 0x800 {
            2
        } else if u < 0x10000 {
            3
        } else {
            4
        };
        assert(s@.take(i + 1).drop_last() =~= s@.take(i as int));
        if w > n - total {
            proof {
                lemma_utf8_len_grows(s@, i + 1);
            }
            return true;
        }
        total = total + w;
        i += 1;
    }
    assert(s@.take(i as int) =~= s@);
    false
}

/// The whitespace-delimited token of `b` that starts at the first occurrence of `marker`.
pub open spec fn token_at(b: Seq<char>, marker: Seq<char>) -> Option<Seq<char>> {
    if contains(b, marker) {
        let i = first_index(b, marker);
        Some(b.subrange(i, white_from(b, i)))
    } else {
        None
    }
}

/// `SSH-...` up to the first CR or LF.
pub open spec fn ssh_version_spec(b: Seq<char>) -> Option<Seq<char>> {
    if starts_with(b, "SSH-"@) {
        Some(b.take(line_end_from(b, 0)))
    } else {
        None
    }
}

/// The tokens after a leading `220` token, joined by single spaces, when
/// there are at least `min` tokens in all.
pub open spec fn reply_version_spec(b: Seq<char>, min: nat) -> Option<Seq<char>> {
    let ts = tokens(b);
    if ts.len() >= min && ts.len() >= 1 && ts[0] == "220"@ {
        Some(join_spaced(ts.drop_first()))
    } else {
        None
    }
}

pub open spec fn dotted_number(t: Seq<char>) -> bool {
    t.len() > 0 && has_char(t, '.') && is_digit(t[0])
}

/// The first token from index `i` on that holds a `.` and starts with a digit.
pub open spec fn first_dotted(ts: Seq<Seq<char>>, i: int) -> Option<Seq<char>>
    decreases ts.len() - i,
{
    if i >= ts.len() || i < 0 {
        None
    } else if dotted_number(ts[i]) {
        Some(ts[i])
    } else {
        first_dotted(ts, i + 1)
    }
}

pub open spec fn mysql_version_spec(b: Seq<char>) -> Option<Seq<char>> {
    first_dotted(tokens(b), 0)
}

/// The version rule of a well-known service name.
pub open spec fn version_spec(b: Seq<char>, service: Seq<char>) -> Option<Seq<char>> {
    if service == "http"@ {
        token_at(b, "HTTP/"@)
    } else if service == "ssh"@ {
        ssh_version_spec(b)
    } else if service == "ftp"@ {
        reply_version_spec(b, 3)
    } else if service == "smtp"@ {
        reply_version_spec(b, 2)
    } else if service == "mysql"@ {
        mysql_version_spec(b)
    } else {
        None
    }
}

/// The web server products, in priority order: (marker, name).
pub open spec fn http_products() -> Seq<(Seq<char>, Seq<char>)> {
    seq![("Apache/"@, "apache"@), ("nginx/"@, "nginx"@), ("IIS/"@, "iis"@)]
}

/// The first product from index `i` on whose marker occurs in `b`.
pub open spec fn product_from(b: Seq<char>, i: int) -> Option<(Seq<char>, Seq<char>)>
    decreases http_products().len() - i,
{
    if i >= http_products().len() || i < 0 {
        None
    } else if contains(b, http_products()[i].0) {
        Some(http_products()[i])
    } else {
        product_from(b, i + 1)
    }
}

/// The classification of banner `b` (its lower-case form `l`) seen on `port`;
/// the first matching rule wins.
pub open spec fn classify_spec(b: Seq<char>, l: Seq<char>, port: u16) -> Option<
    (Seq<char>, Option<Seq<char>>, Option<Seq<char>>, u8),
> {
    if contains(l, "http/"@) {
        match product_from(b, 0) {
            Some((marker, name)) => Some((name, token_at(b, marker), Some(b), 90u8)),
            None => Some(("http"@, token_at(b, "HTTP/"@), Some(b), 85u8)),
        }
    } else if starts_with(l, "ssh-"@) {
        Some(("ssh"@, Some(b.take(line_end_from(b, 0))), Some(b), 95u8))
    } else if contains(l, "ftp"@) || starts_with(b, "220"@) {
        Some(("ftp"@, reply_version_spec(b, 3), Some(b), 85u8))
    } else if starts_with(b, "220"@) && contains(l, "smtp"@) {
        Some(("smtp"@, reply_version_spec(b, 2), Some(b), 85u8))
    } else if contains(l, "telnet"@) || port == 23 {
        Some(("telnet"@, None, Some(b), 70u8))
    } else if contains(l, "mysql"@) || (port == 3306 && utf8_len(b) > 10) {
        Some(("mysql"@, mysql_version_spec(b), Some(b), 80u8))
    } else if contains(l, "postgresql"@) || port == 5432 {
        Some(("postgresql"@, None, Some(b), 75u8))
    } else if b.len() > 0 {
        Some(("unknown"@, None, Some(b), 30u8))
    } else {
        None
    }
}

/// Identification of the service on `port` from the text it sent, if any:
/// the well-known name is tentative at confidence 90; a banner classified
/// as a named service replaces it, at 95 when a version was extracted.
/// Off the table, the classification alone decides.
pub open spec fn identify_spec(port: u16, text: Option<Seq<char>>) -> Option<
    (Seq<char>, Option<Seq<char>>, Option<Seq<char>>, u8),
> {
    let known = service_name_spec(port, Protocol::Tcp);
    match text {
        Some(b) => {
            let c = classify_spec(b, lower_of(b), port);
            match known {
                Some(n) => match c {
                    Some((name, version, _, _)) => if name != "unknown"@ {
                        Some((name, version, Some(b), if version is Some {
                            95u8
                        } else {
                            90u8
                        }))
                    } else {
                        Some((n, None, Some(b), 90u8))
                    },
                    None => Some((n, None, Some(b), 90u8)),
                },
                None => c,
            }
        },
        None => match known {
            Some(n) => Some((n, None, None, 90u8)),
            None => None,
        },
    }
}

proof fn lemma_line_end_whole(b: Seq<char>, i: int)
    requires
        0 <= i <= b.len(),
        forall|k: int| 0 <= k < b.len() ==> b[k] != '\r' && b[k] != '\n',
    ensures
        line_end_from(b, i) == b.len(),
    decreases b.len() - i,
{
    if i < b.len() {
        lemma_line_end_whole(b, i + 1);
    }
}

/// A one-line banner on port 22 whose lower-case form starts with `ssh-`
/// (and holds no `http/`) is identified as ssh, with the whole banner as its
/// version, at confidence 95.
pub proof fn lemma_ssh_banner_on_22(b: Seq<char>)
    requires
        starts_with(lower_of(b), "ssh-"@),
        !contains(lower_of(b), "http/"@),
        forall|k: int| 0 <= k < b.len() ==> b[k] != '\r' && b[k] != '\n',
    ensures
        identify_spec(22, Some(b)) == Some(("ssh"@, Some(b), Some(b), 95u8)),
{
    lemma_line_end_whole(b, 0);
    assert(b.take(b.len() as int) =~= b);
    reveal_strlit("ssh");
    reveal_strlit("unknown");
    assert("ssh"@.len() == 3);
    assert("unknown"@.len() == 7);
    assert("ssh"@ != "unknown"@);
    assert(service_name_spec(22, Protocol::Tcp) == Some("ssh"@));
}

/// The probe payloads, by port.
pub open spec fn probe_table() -> Seq<(u16, Seq<char>)> {
    seq![
        (80u16, "GET / HTTP/1.1\r\nHost: localhost\r\n\r\n"@),
        (8080u16, "GET / HTTP/1.1\r\nHost: localhost\r\n\r\n"@),
        (443u16, "GET / HTTP/1.1\r\nHost: localhost\r\n\r\n"@),
        (25u16, "EHLO localhost\r\n"@),
        (21u16, "USER anonymous\r\n"@),
        (110u16, "USER test\r\n"@),
        (143u16, "A001 CAPABILITY\r\n"@),
    ]
}

/// The first payload of `table` for `port`.
pub open spec fn payload_in(table: Seq<(u16, Seq<char>)>, port: u16) -> Option<Seq<char>>
    decreases table.len(),
{
    if table.len() == 0 {
        None
    } else if table[0].0 == port {
        Some(table[0].1)
    } else {
        payload_in(table.drop_first(), port)
    }
}

/// What to do after the banner step of identification.
pub enum FingerprintStep {
    /// Identification is over, with this result.
    Done(Option<ServiceInfo>),
    /// Send this payload and classify the reply.
    SendProbe(String),
}

fn some_string(v: Vec<char>) -> (r: Option<String>)
    ensures
        opt_view(r) == Some(v@),
{
    Some(string_of(&v))
}

/// The token starting at the first occurrence of `marker`.
fn token_after(b: &Vec<char>, marker: &str) -> (r: Option<String>)
    ensures
        opt_view(r) == token_at(b@, marker@),
{
    let m = chars_of(marker);
    match find(b, &m) {
        Some(i) => {
            proof {
                lemma_first_unique(b@, m@, i as int);
            }
            let e = white_index(b, i);
            some_string(slice_of(b, i, e))
        },
        None => None,
    }
}

fn ssh_version(b: &Vec<char>) -> (r: Option<String>)
    ensures
        opt_view(r) == ssh_version_spec(b@),
{
    if starts_with_seq(b, &chars_of("SSH-")) {
        let e = line_end(b);
        let v = slice_of(b, 0, e);
        assert(v@ =~= b@.take(e as int));
        some_string(v)
    } else {
        None
    }
}

fn reply_version(b: &Vec<char>, min: usize) -> (r: Option<String>)
    ensures
        opt_view(r) == reply_version_spec(b@, min as nat),
{
    let ts = split_tokens(b);
    let ghost tv = ts@.map_values(|t: Vec<char>| t@);
    assert(tv.len() == ts@.len());
    if ts.len() >= min && ts.len() >= 1 && same_chars(&ts[0], &chars_of("220")) {
        assert(ts@[0]@ == tv[0]);
        let mut out: Vec<char> = Vec::new();
        let mut k: usize = 1;
        while k < ts.len()
            invariant
                1 <= k <= ts@.len(),
                tv == ts@.map_values(|t: Vec<char>| t@),
                out@ == join_spaced(tv.subrange(1, k as int)),
            decreases ts.len() - k,
        {
            let ghost prev = out@;
            if k > 1 {
                out.push(' ');
            }
            push_all(&mut out, &ts[k]);
            assert(tv.subrange(1, k + 1).drop_last() =~= tv.subrange(1, k as int));
            assert(ts@[k as int]@ == tv[k as int]);
            if k > 1 {
                assert(out@ =~= prev + seq![' '] + tv[k as int]);
            } else {
                assert(out@ =~= tv[k as int]);
            }
            k += 1;
        }
        assert(tv.subrange(1, tv.len() as int) =~= tv.drop_first());
        some_string(out)
    } else {
        None
    }
}

fn is_dotted_number(t: &Vec<char>) -> (r: bool)
    ensures
        r == dotted_number(t@),
{
    t.len() > 0 && has_char_exec(t, '.') && '0' <= t[0] && t[0] <= '9'
}

fn mysql_version(b: &Vec<char>) -> (r: Option<String>)
    ensures
        opt_view(r) == mysql_version_spec(b@),
{
    let ts = split_tokens(b);
    let ghost tv = ts@.map_values(|t: Vec<char>| t@);
    let mut i: usize = 0;
    while i < ts.len()
        invariant
            i <= ts@.len(),
            tv == ts@.map_values(|t: Vec<char>| t@),
            tv == tokens(b@),
            first_dotted(tv, i as int) == first_dotted(tv, 0),
        decreases ts.len() - i,
    {
        assert(ts@[i as int]@ == tv[i as int]);
        if is_dotted_number(&ts[i]) {
            return some_string(slice_of(&ts[i], 0, ts[i].len()));
        }
        i += 1;
    }
    None
}

fn lit_eq(a: &Vec<char>, lit: &str) -> (r: bool)
    ensures
        r == (a@ == lit@),
{
    same_chars(a, &chars_of(lit))
}

/// The version that the banner gives for a service of the given name.
pub fn extract_version(banner: &str, service: &str) -> (r: Option<String>)
    ensures
        opt_view(r) == version_spec(banner@, service@),
{
    let b = chars_of(banner);
    let s = chars_of(service);
    if lit_eq(&s, "http") {
        token_after(&b, "HTTP/")
    } else if lit_eq(&s, "ssh") {
        ssh_version(&b)
    } else if lit_eq(&s, "ftp") {
        reply_version(&b, 3)
    } else if lit_eq(&s, "smtp") {
        reply_version(&b, 2)
    } else if lit_eq(&s, "mysql") {
        mysql_version(&b)
    } else {
        None
    }
}

fn service(name: &str, version: Option<String>, banner: &str, confidence: u8) -> (r: ServiceInfo)
    ensures
        r@ == (name@, opt_view(version), Some(banner@), confidence),
{
    ServiceInfo { name: name.to_owned(), version, banner: Some(banner.to_owned()), confidence }
}

/// Classifies a banner given with its lower-case form; the first matching rule wins.
pub fn classify_banner(banner: &str, lower: &str, port: u16) -> (r: Option<ServiceInfo>)
    ensures
        service_view(r) == classify_spec(banner@, lower@, port),
{
    let b = chars_of(banner);
    let l = chars_of(lower);
    if contains_seq(&l, &chars_of("http/")) {
        let products = vec![("Apache/", "apache"), ("nginx/", "nginx"), ("IIS/", "iis")];
        assert(products@.len() == 3);
        let mut k: usize = 0;
        while k < products.len()
            invariant
                k <= 3,
                products@ == seq![("Apache/", "apache"), ("nginx/", "nginx"), ("IIS/", "iis")],
                product_from(b@, k as int) == product_from(b@, 0),
                contains(l@, "http/"@),
                b@ == banner@,
                l@ == lower@,
            decreases 3 - k,
        {
            let (marker, name) = products[k];
            assert(http_products()[k as int] == (marker@, name@)) by {
                if k == 0 {
                } else if k == 1 {
                } else {
                }
            }
            if contains_seq(&b, &chars_of(marker)) {
                assert(product_from(b@, k as int) == Some((marker@, name@)));
                return Some(service(name, token_after(&b, marker), banner, 90));
            }
            k += 1;
        }
        assert(product_from(b@, 3) is None);
        return Some(service("http", token_after(&b, "HTTP/"), banner, 85));
    }
    if starts_with_seq(&l, &chars_of("ssh-")) {
        let e = line_end(&b);
        let v = slice_of(&b, 0, e);
        assert(v@ =~= b@.take(e as int));
        return Some(service("ssh", some_string(v), banner, 95));
    }
    let b220 = starts_with_seq(&b, &chars_of("220"));
    if contains_seq(&l, &chars_of("ftp")) || b220 {
        return Some(service("ftp", reply_version(&b, 3), banner, 85));
    }
    if b220 && contains_seq(&l, &chars_of("smtp")) {
        return Some(service("smtp", reply_version(&b, 2), banner, 85));
    }
    if contains_seq(&l, &chars_of("telnet")) || port == 23 {
        return Some(service("telnet", None, banner, 70));
    }
    if contains_seq(&l, &chars_of("mysql")) || (port == 3306 && utf8_len_over(&b, 10)) {
        return Some(service("mysql", mysql_version(&b), banner, 80));
    }
    if contains_seq(&l, &chars_of("postgresql")) || port == 5432 {
        return Some(service("postgresql", None, banner, 75));
    }
    if b.len() > 0 {
        Some(service("unknown", None, banner, 30))
    } else {
        None
    }
}

/// What `String::from_utf8_lossy` makes of a byte sequence.
pub uninterp spec fn lossy_text_of(b: Seq<u8>) -> Seq<char>;

/// Relies on `String::from_utf8_lossy`: the text of the bytes, each invalid
/// sequence replaced; it depends on the bytes alone.
#[verifier::external_body]
fn lossy_text(raw: &[u8]) -> (r: String)
    ensures
        r@ == lossy_text_of(raw@),
        valid_utf8(raw@) ==> r@ == decode_utf8(raw@),
{
    String::from_utf8_lossy(raw).into_owned()
}

/// The banner carried by bytes read from a peer: their text, without
/// leading and trailing whitespace.
pub fn banner_text(raw: &[u8]) -> (r: String)
    ensures
        r@ == trim(lossy_text_of(raw@)),
{
    let text = lossy_text(raw);
    let cs = chars_of(text.as_str());
    string_of(&trim_chars(&cs))
}

/// Service identification: a table of probe payloads by port, and the
/// timeout for its connections.
pub struct ServiceDetector {
    pub timeout: TimeSpan,
    pub probes: Vec<(u16, String)>,
}

pub open spec fn table_view(t: Seq<(u16, String)>) -> Seq<(u16, Seq<char>)> {
    t.map_values(|e: (u16, String)| (e.0, e.1@))
}

impl ServiceDetector {
    pub open spec fn probes_view(&self) -> Seq<(u16, Seq<char>)> {
        table_view(self.probes@)
    }

    pub fn new() -> (r: ServiceDetector)
        ensures
            r.timeout.millis == 3000,
            r.probes_view() == probe_table(),
    {
        let mut d = ServiceDetector { timeout: TimeSpan::from_secs(3), probes: Vec::new() };
        d.init_probes();
        assert(d.probes_view() =~= probe_table());
        d
    }

    pub fn with_timeout(self, timeout: TimeSpan) -> (r: ServiceDetector)
        ensures
            r.timeout == timeout && r.probes_view() == self.probes_view(),
    {
        ServiceDetector { timeout, ..self }
    }

    /// Adds the payloads for HTTP, SMTP, FTP, POP3 and IMAP.
    pub fn init_probes(&mut self)
        ensures
            final(self).probes_view() == old(self).probes_view() + probe_table(),
            final(self).timeout == old(self).timeout,
    {
        let get = "GET / HTTP/1.1\r\nHost: localhost\r\n\r\n";
        self.probes.push((80, get.to_owned()));
        self.probes.push((8080, get.to_owned()));
        self.probes.push((443, get.to_owned()));
        self.probes.push((25, "EHLO localhost\r\n".to_owned()));
        self.probes.push((21, "USER anonymous\r\n".to_owned()));
        self.probes.push((110, "USER test\r\n".to_owned()));
        self.probes.push((143, "A001 CAPABILITY\r\n".to_owned()));
        assert(self.probes_view() =~= old(self).probes_view() + probe_table());
    }

    /// The probe payload for a port.
    pub fn probe_for(&self, port: u16) -> (r: Option<String>)
        ensures
            opt_view(r) == payload_in(self.probes_view(), port),
    {
        let mut i: usize = 0;
        assert(self.probes_view().skip(0) =~= self.probes_view());
        while i < self.probes.len()
            invariant
                i <= self.probes@.len(),
                payload_in(self.probes_view().skip(i as int), port) == payload_in(
                    self.probes_view(),
                    port,
                ),
            decreases self.probes.len() - i,
        {
            assert(self.probes_view().skip(i as int).drop_first() =~= self.probes_view().skip(
                i + 1,
            ));
            assert(self.probes_view().skip(i as int)[0] == (self.probes@[i as int].0, self.probes@[i as int].1@));
            if self.probes[i].0 == port {
                return Some(self.probes[i].1.clone());
            }
            i += 1;
        }
        None
    }

    /// Classifies a banner seen on `port`. An empty banner gives nothing,
    /// unless the port alone names the service.
    pub fn analyze_banner(&self, banner: &str, port: u16) -> (r: Option<ServiceInfo>)
        ensures
            service_view(r) == classify_spec(banner@, lower_of(banner@), port),
            banner@.len() == 0 && port != 23 && port != 5432 ==> r is None,
    {
        let lower = lowercase(banner);
        let r = classify_banner(banner, lower.as_str(), port);
        proof {
            if banner@.len() == 0 {
                let e = banner@;
                let l = lower_of(banner@);
                reveal_strlit("http/");
                reveal_strlit("ssh-");
                reveal_strlit("ftp");
                reveal_strlit("220");
                reveal_strlit("smtp");
                reveal_strlit("telnet");
                reveal_strlit("mysql");
                reveal_strlit("postgresql");
                assert(!contains(l, "http/"@));
                assert(!starts_with(l, "ssh-"@));
                assert(!contains(l, "ftp"@));
                assert(!starts_with(e, "220"@));
                assert(!contains(l, "telnet"@));
                assert(!contains(l, "mysql"@));
                assert(!contains(l, "postgresql"@));
                assert(utf8_len(e) == 0);
            }
        }
        r
    }

    /// The version token after `HTTP/`.
    pub fn extract_http_version(&self, banner: &str) -> (r: Option<String>)
        ensures
            opt_view(r) == token_at(banner@, "HTTP/"@),
    {
        token_after(&chars_of(banner), "HTTP/")
    }

    pub fn extract_apache_version(&self, banner: &str) -> (r: Option<String>)
        ensures
            opt_view(r) == token_at(banner@, "Apache/"@),
    {
        token_after(&chars_of(banner), "Apache/")
    }

    pub fn extract_nginx_version(&self, banner: &str) -> (r: Option<String>)
        ensures
            opt_view(r) == token_at(banner@, "nginx/"@),
    {
        token_after(&chars_of(banner), "nginx/")
    }

    pub fn extract_iis_version(&self, banner: &str) -> (r: Option<String>)
        ensures
            opt_view(r) == token_at(banner@, "IIS/"@),
    {
        token_after(&chars_of(banner), "IIS/")
    }

    pub fn extract_ssh_version(&self, banner: &str) -> (r: Option<String>)
        ensures
            opt_view(r) == ssh_version_spec(banner@),
    {
        ssh_version(&chars_of(banner))
    }

    pub fn extract_ftp_version(&self, banner: &str) -> (r: Option<String>)
        ensures
            opt_view(r) == reply_version_spec(banner@, 3),
    {
        reply_version(&chars_of(banner), 3)
    }

    pub fn extract_smtp_version(&self, banner: &str) -> (r: Option<String>)
        ensures
            opt_view(r) == reply_version_spec(banner@, 2),
    {
        reply_version(&chars_of(banner), 2)
    }

    pub fn extract_mysql_version(&self, banner: &str) -> (r: Option<String>)
        ensures
            opt_view(r) == mysql_version_spec(banner@),
    {
        mysql_version(&chars_of(banner))
    }

    /// How long to wait for a peer to speak, or to answer a payload.
    pub fn read_window(&self) -> (r: TimeSpan)
        ensures
            r.millis == 2000,
    {
        TimeSpan::from_secs(2)
    }

    /// The payload to send when a port stays silent after connecting:
    /// an HTTP request on the web ports, nothing elsewhere.
    pub fn silent_banner_payload(port: u16) -> (r: Option<String>)
        ensures
            opt_view(r) == if port == 80 || port == 8080 || port == 443 {
                Some("GET / HTTP/1.1\r\nHost: localhost\r\n\r\n"@)
            } else {
                None
            },
    {
        if port == 80 || port == 8080 || port == 443 {
            Some("GET / HTTP/1.1\r\nHost: localhost\r\n\r\n".to_owned())
        } else {
            None
        }
    }

    /// Identifies the service on `port` from the text it sent, if any.
    pub fn identify(&self, port: u16, text: Option<&str>) -> (r: Option<ServiceInfo>)
        ensures
            service_view(r) == identify_spec(port, str_view(text)),
    {
        let known = get_service_name(port, Protocol::Tcp);
        match text {
            Some(b) => {
                let c = self.analyze_banner(b, port);
                match known {
                    Some(n) => match c {
                        Some(found) => {
                            if lit_eq(&chars_of(found.name.as_str()), "unknown") {
                                Some(service(n, None, b, 90))
                            } else {
                                let confidence: u8 = if found.version.is_some() {
                                    95
                                } else {
                                    90
                                };
                                Some(
                                    ServiceInfo {
                                        name: found.name,
                                        version: found.version,
                                        banner: Some(b.to_owned()),
                                        confidence,
                                    },
                                )
                            }
                        },
                        None => Some(service(n, None, b, 90)),
                    },
                    None => c,
                }
            },
            None => match known {
                Some(n) => Some(
                    ServiceInfo { name: n.to_owned(), version: None, banner: None, confidence: 90 },
                ),
                None => None,
            },
        }
    }

    /// The decision after trying to read a banner from `port`: a banner is
    /// identified; without one, the port's probe payload is sent if it has
    /// one, else the port is identified from the table alone.
    pub fn after_banner(&self, port: u16, banner: Option<&str>) -> (r: FingerprintStep)
        ensures
            banner is Some ==> (r matches FingerprintStep::Done(o) && service_view(o)
                == identify_spec(port, str_view(banner))),
            banner is None ==> match payload_in(self.probes_view(), port) {
                Some(p) => (r matches FingerprintStep::SendProbe(q) && q@ == p),
                None => (r matches FingerprintStep::Done(o) && service_view(o) == identify_spec(
                    port,
                    None,
                )),
            },
    {
        match banner {
            Some(_) => FingerprintStep::Done(self.identify(port, banner)),
            None => match self.probe_for(port) {
                Some(p) => FingerprintStep::SendProbe(p),
                None => FingerprintStep::Done(self.identify(port, None)),
            },
        }
    }

    /// The result once a probe payload was sent: its reply, if any, is identified.
    pub fn after_probe(&self, port: u16, reply: Option<&str>) -> (r: Option<ServiceInfo>)
        ensures
            service_view(r) == identify_spec(port, str_view(reply)),
    {
        self.identify(port, reply)
    }
}

impl Default for ServiceDetector {
    fn default() -> (r: ServiceDetector)
        ensures
            r.timeout.millis == 3000,
            r.probes_view() == probe_table(),
    {
        ServiceDetector::new()
    }
}

} // verus!
