//! Endpoint descriptors: the names and URL schemes of each kind of driver,
//! usage examples, and the configuration read from an endpoint URL.

use vstd::prelude::*;
use vstd::string::StrSliceExecFns;
use crate::drivers::{FakeSink, FakeSource};

verus! {

#[verifier::external_type_specification]
#[verifier::external_body]
pub struct ExUrl(url::Url);

/// The serialization of `s` parsed as a URL, if it parses.
pub uninterp spec fn url_serialization(s: Seq<char>) -> Option<Seq<char>>;

/// Relies on url::Url::parse and the Display of url::Url: the normalized
/// text of a URL, or None where `s` is not a URL.
#[verifier::external_body]
fn normalize_url(s: &str) -> (r: Option<String>)
    ensures
        match r {
            Some(v) => url_serialization(s@) == Some(v@),
            None => url_serialization(s@) is None,
        },
{
    match url::Url::parse(s) {
        Ok(u) => Some(u.to_string()),
        Err(_) => None,
    }
}

/// The path of a URL.
pub uninterp spec fn url_path_of(u: url::Url) -> Seq<char>;

/// The key/value pairs of a URL's query, in order.
pub uninterp spec fn url_query_of(u: url::Url) -> Seq<(Seq<char>, Seq<char>)>;

/// The views of key/value pairs.
pub open spec fn pair_views(pairs: Seq<(String, String)>) -> Seq<(Seq<char>, Seq<char>)> {
    pairs.map_values(|p: (String, String)| (p.0@, p.1@))
}

/// Relies on url::Url::path: the path of the URL, percent-encoded as written.
#[verifier::external_body]
fn url_path(u: &url::Url) -> (r: String)
    ensures
        r@ == url_path_of(*u),
{
    u.path().to_string()
}

/// Relies on url::Url::query_pairs: the key/value pairs of the query,
/// form-urlencoded decoded, in order.
#[verifier::external_body]
fn url_query_pairs(u: &url::Url) -> (r: Vec<(String, String)>)
    ensures
        pair_views(r@) == url_query_of(*u),
{
    let mut out = Vec::new();
    for (k, v) in u.query_pairs() {
        out.push((k.into_owned(), v.into_owned()));
    }
    out
}

pub open spec fn normalized_or_same(s: Seq<char>) -> Seq<char> {
    match url_serialization(s) {
        Some(v) => v,
        None => s,
    }
}

fn normalized(s: &str) -> (r: String)
    ensures
        r@ == normalized_or_same(s@),
{
    match normalize_url(s) {
        Some(v) => v,
        None => s.to_owned(),
    }
}

/// The value of a run of decimal digits.
pub open spec fn digits_value(s: Seq<char>) -> int
    decreases s.len(),
{
    if s.len() == 0 {
        0
    } else {
        digits_value(s.drop_last()) * 10 + (s.last() as int - '0' as int)
    }
}

pub open spec fn all_digits(s: Seq<char>) -> bool {
    forall|i: int| 0 <= i < s.len() ==> '0' <= #[trigger] s[i] <= '9'
}

/// A `u32` written in decimal, with an optional leading `+`.
pub open spec fn parsed_u32(s: Seq<char>) -> Option<u32> {
    let d = if s.len() > 0 && s[0] == '+' { s.skip(1) } else { s };
    if d.len() > 0 && all_digits(d) && digits_value(d) <= u32::MAX {
        Some(digits_value(d) as u32)
    } else {
        None
    }
}

proof fn lemma_digits_step(s: Seq<char>, i: int)
    requires
        0 <= i < s.len(),
    ensures
        s.subrange(0, i + 1).drop_last() == s.subrange(0, i),
        s.subrange(0, i + 1).last() == s[i],
{
    assert(s.subrange(0, i + 1).drop_last() =~= s.subrange(0, i));
}

proof fn lemma_digits_nonneg(s: Seq<char>)
    requires
        all_digits(s),
    ensures
        digits_value(s) >= 0,
    decreases s.len(),
{
    if s.len() > 0 {
        lemma_digits_nonneg(s.drop_last());
    }
}

/// Reads a `u32` written in decimal, with an optional leading `+`.
pub fn parse_u32(s: &str) -> (r: Option<u32>)
    ensures
        r == parsed_u32(s@),
{
    let n = s.unicode_len();
    let mut start: usize = 0;
    if n > 0 && s.get_char(0) == '+' {
        start = 1;
    }
    let ghost d = if s@.len() > 0 && s@[0] == '+' { s@.skip(1) } else { s@ };
    proof {
        assert(d =~= s@.subrange(start as int, n as int));
    }
    if start == n {
        return None;
    }
    let mut value: u64 = 0;
    let mut too_big = false;
    let mut i: usize = start;
    while i < n
        invariant
            start <= i <= n,
            n == s@.len(),
            start < n,
            d == s@.subrange(start as int, n as int),
            d == (if s@.len() > 0 && s@[0] == '+' { s@.skip(1) } else { s@ }),
            all_digits(d.subrange(0, i - start)),
            !too_big ==> value == digits_value(d.subrange(0, i - start)) && value <= u32::MAX,
            too_big ==> digits_value(d.subrange(0, i - start)) > u32::MAX,
        decreases n - i,
    {
        let c = s.get_char(i);
        if c < '0' || c > '9' {
            proof {
                let k = i - start;
                assert(d[k] == c);
            }
            return None;
        }
        let ghost k = i - start;
        proof {
            assert(d[k] == c);
            lemma_digits_step(d, k);
            assert(all_digits(d.subrange(0, k + 1))) by {
                assert forall|j: int| 0 <= j < k + 1 implies '0' <= #[trigger] d.subrange(0, k + 1)[j] <= '9' by {
                    if j < k {
                        assert(d.subrange(0, k + 1)[j] == d.subrange(0, k)[j]);
                    }
                }
            }
            lemma_digits_nonneg(d.subrange(0, k));
        }
        let digit: u64 = (c as u32 - '0' as u32) as u64;
        if !too_big {
            value = value * 10 + digit;
            if value > 0xffff_ffff {
                too_big = true;
            }
        }
        i = i + 1;
    }
    proof {
        assert(d.subrange(0, n - start) =~= d);
    }
    if too_big {
        None
    } else {
        Some(value as u32)
    }
}

/// The baud rate of a serial port, from the first `baudrate` or `arg2` key
/// whose value is a number, looking from index `i` on.
pub open spec fn baud_rate_from(pairs: Seq<(Seq<char>, Seq<char>)>, i: int) -> Option<u32>
    decreases pairs.len() - i,
{
    if i < 0 || i >= pairs.len() {
        None
    } else if (pairs[i].0 == "baudrate"@ || pairs[i].0 == "arg2"@) && parsed_u32(pairs[i].1) is Some {
        parsed_u32(pairs[i].1)
    } else {
        baud_rate_from(pairs, i + 1)
    }
}

/// The baud rate common to flight controllers, used when a URL names none.
pub const DEFAULT_BAUD_RATE: u32 = 115200;

pub open spec fn baud_rate_of(pairs: Seq<(Seq<char>, Seq<char>)>) -> u32 {
    match baud_rate_from(pairs, 0) {
        Some(b) => b,
        None => DEFAULT_BAUD_RATE,
    }
}

/// A serial port and its baud rate.
pub struct Serial {
    pub port_name: String,
    pub baud_rate: u32,
}

pub struct SerialBuilder(Serial);

impl Serial {
    pub fn builder(port_name: &str, baud_rate: u32) -> (r: SerialBuilder)
        ensures
            r.serial().port_name@ == port_name@,
            r.serial().baud_rate == baud_rate,
    {
        SerialBuilder(Serial { port_name: port_name.to_owned(), baud_rate })
    }

    /// The port named by `port_name`, at the baud rate that the query
    /// `pairs` of its URL give, or the default one.
    pub fn from_url_parts(port_name: String, pairs: &Vec<(String, String)>) -> (r: Serial)
        ensures
            r.port_name == port_name,
            r.baud_rate == baud_rate_of(pair_views(pairs@)),
    {
        let baudrate_key = "baudrate".to_owned();
        let arg2_key = "arg2".to_owned();
        let mut i: usize = 0;
        while i < pairs.len()
            invariant
                i <= pairs@.len(),
                baudrate_key@ == "baudrate"@,
                arg2_key@ == "arg2"@,
                baud_rate_from(pair_views(pairs@), 0) == baud_rate_from(pair_views(pairs@), i as int),
            decreases pairs@.len() - i,
        {
            proof {
                assert(pair_views(pairs@)[i as int] == (pairs@[i as int].0@, pairs@[i as int].1@));
            }
            let key = &pairs[i].0;
            if key.eq(&baudrate_key) || key.eq(&arg2_key) {
                if let Some(b) = parse_u32(pairs[i].1.as_str()) {
                    return Serial { port_name, baud_rate: b };
                }
            }
            i = i + 1;
        }
        Serial { port_name, baud_rate: DEFAULT_BAUD_RATE }
    }
}

impl SerialBuilder {
    pub closed spec fn serial(self) -> Serial {
        self.0
    }

    pub fn build(self) -> (r: Serial)
        ensures
            r == self.serial(),
    {
        self.0
    }
}

/// A telemetry log written to `path`.
pub struct TlogWriter {
    pub path: String,
}

pub struct TlogWriterBuilder(TlogWriter);

impl TlogWriter {
    pub fn builder(path: String) -> (r: TlogWriterBuilder)
        ensures
            r.writer().path == path,
    {
        TlogWriterBuilder(TlogWriter { path })
    }
}

impl TlogWriterBuilder {
    pub closed spec fn writer(self) -> TlogWriter {
        self.0
    }

    pub fn build(self) -> (r: TlogWriter)
        ensures
            r == self.writer(),
    {
        self.0
    }
}

/// An endpoint described by a URL.
pub enum Endpoint {
    Serial(Serial),
    TlogWriter(TlogWriter),
    FakeSource(FakeSource),
    FakeSink(FakeSink),
}

fn strings2(a: &str, b: &str) -> (r: Vec<String>)
    ensures
        r@.len() == 2,
        r@[0]@ == a@,
        r@[1]@ == b@,
{
    let mut v: Vec<String> = Vec::new();
    v.push(a.to_owned());
    v.push(b.to_owned());
    v
}

fn strings3(a: &str, b: &str, c: &str) -> (r: Vec<String>)
    ensures
        r@.len() == 3,
        r@[0]@ == a@,
        r@[1]@ == b@,
        r@[2]@ == c@,
{
    let mut v = strings2(a, b);
    v.push(c.to_owned());
    v
}

pub struct FakeSinkInfo;

impl FakeSinkInfo {
    pub fn name(&self) -> (r: &'static str)
        ensures
            r@ == "FakeSink"@,
    {
        "FakeSink"
    }

    pub fn valid_schemes(&self) -> (r: Vec<String>)
        ensures
            r@.len() == 3,
            r@[0]@ == "fakeclient"@,
            r@[1]@ == "fakesink"@,
            r@[2]@ == "fakec"@,
    {
        strings3("fakeclient", "fakesink", "fakec")
    }

    pub fn cli_example_legacy(&self) -> (r: Vec<String>)
        ensures
            r@.len() == 0,
    {
        Vec::new()
    }

    pub fn cli_example_url(&self) -> (r: Vec<String>)
        ensures
            r@.len() == 0,
    {
        Vec::new()
    }

    /// A fake sink is not configured from a URL.
    pub fn create_endpoint_from_url(&self, _url: &url::Url) -> (r: Option<Endpoint>)
        ensures
            r is None,
    {
        None
    }
}

pub struct FakeSourceInfo;

impl FakeSourceInfo {
    pub fn name(&self) -> (r: &'static str)
        ensures
            r@ == "FakeSource"@,
    {
        "FakeSource"
    }

    pub fn valid_schemes(&self) -> (r: Vec<String>)
        ensures
            r@.len() == 4,
            r@[0]@ == "fakesource"@,
            r@[1]@ == "fakeserver"@,
            r@[2]@ == "fakesrc"@,
            r@[3]@ == "fakes"@,
    {
        let mut v = strings3("fakesource", "fakeserver", "fakesrc");
        v.push("fakes".to_owned());
        v
    }

    pub fn cli_example_legacy(&self) -> (r: Vec<String>)
        ensures
            r@.len() == 0,
    {
        Vec::new()
    }

    pub fn cli_example_url(&self) -> (r: Vec<String>)
        ensures
            r@.len() == 0,
    {
        Vec::new()
    }

    /// A fake source is not configured from a URL.
    pub fn create_endpoint_from_url(&self, _url: &url::Url) -> (r: Option<Endpoint>)
        ensures
            r is None,
    {
        None
    }
}

pub struct SerialInfo;

impl SerialInfo {
    pub fn name(&self) -> (r: &'static str)
        ensures
            r@ == "Serial"@,
    {
        "Serial"
    }

    pub fn valid_schemes(&self) -> (r: Vec<String>)
        ensures
            r@.len() == 1,
            r@[0]@ == "serial"@,
    {
        let mut v: Vec<String> = Vec::new();
        v.push("serial".to_owned());
        v
    }

    pub fn cli_example_legacy(&self) -> (r: Vec<String>)
        ensures
            r@.len() == 3,
            r@[0]@ == "serial:<PORT>:<BAUDRATE>"@,
            r@[1]@ == "serial:/dev/ttyACM0:115200"@,
            r@[2]@ == "serial:COM:57600"@,
    {
        strings3("serial:<PORT>:<BAUDRATE>", "serial:/dev/ttyACM0:115200", "serial:COM:57600")
    }

    pub fn cli_example_url(&self) -> (r: Vec<String>)
        ensures
            r@.len() == 3,
            r@[0]@ == "serial://<PORT>?baudrate=<BAUDRATE?>"@,
            r@[1]@ == normalized_or_same("serial:///dev/ttyACM0?baudrate=115200"@),
            r@[2]@ == normalized_or_same("serial://COM1?baudrate=57600"@),
    {
        let mut v: Vec<String> = Vec::new();
        v.push("serial://<PORT>?baudrate=<BAUDRATE?>".to_owned());
        v.push(normalized("serial:///dev/ttyACM0?baudrate=115200"));
        v.push(normalized("serial://COM1?baudrate=57600"));
        v
    }

    /// A serial port at the URL's path; its baud rate comes from the query
    /// (see [`Serial::from_url_parts`]).
    pub fn create_endpoint_from_url(&self, url: &url::Url) -> (r: Option<Endpoint>)
        ensures
            r matches Some(Endpoint::Serial(s)) && s.port_name@ == url_path_of(*url)
                && s.baud_rate == baud_rate_of(url_query_of(*url)),
    {
        let port_name = url_path(url);
        let pairs = url_query_pairs(url);
        Some(Endpoint::Serial(Serial::from_url_parts(port_name, &pairs)))
    }
}

pub struct TlogWriterInfo;

impl TlogWriterInfo {
    pub fn name(&self) -> (r: &'static str)
        ensures
            r@ == "Tlogwriter"@,
    {
        "Tlogwriter"
    }

    pub fn valid_schemes(&self) -> (r: Vec<String>)
        ensures
            r@.len() == 2,
            r@[0]@ == "tlogwriter"@,
            r@[1]@ == "tlogw"@,
    {
        strings2("tlogwriter", "tlogw")
    }

    pub fn cli_example_legacy(&self) -> (r: Vec<String>)
        ensures
            r@.len() == 2,
            r@[0]@ == "tlogwriter:<FILE>"@,
            r@[1]@ == "tlogwriter:/tmp/potato.tlog"@,
    {
        strings2("tlogwriter:<FILE>", "tlogwriter:/tmp/potato.tlog")
    }

    pub fn cli_example_url(&self) -> (r: Vec<String>)
        ensures
            r@.len() == 2,
            r@[0]@ == "tlogwriter://<FILE>"@,
            r@[1]@ == normalized_or_same("tlogwriter:///tmp/potato.tlog"@),
    {
        let mut v: Vec<String> = Vec::new();
        v.push("tlogwriter://<FILE>".to_owned());
        v.push(normalized("tlogwriter:///tmp/potato.tlog"));
        v
    }

    /// A log written at the URL's path.
    pub fn create_endpoint_from_url(&self, url: &url::Url) -> (r: Option<Endpoint>)
        ensures
            r matches Some(Endpoint::TlogWriter(w)) && w.path@ == url_path_of(*url),
    {
        Some(Endpoint::TlogWriter(TlogWriter::builder(url_path(url)).build()))
    }
}

} // verus!
