//! The remote-storage side: the bucket configuration document and the
//! object names used when transcripts are copied to and from a bucket.
//!
//! The transfers themselves run outside this crate, through an external
//! copying tool; what is decided here is what the configuration text says,
//! which object a file lands on, and how a bucket listing line is read
//! back into a project directory and a file name.

use vstd::prelude::*;
use vstd::string::StringExecFns;
use crate::shims::{config_bucket, encode_bucket_config, read_config_bucket};
use crate::text::{chars_of, has_prefix, string_from_chars, tail_from};

verus! {

/// The remote-storage configuration: the bucket to copy to, and whether
/// the feature is on at all.
pub struct CloudConfig {
    /// The bucket, possibly spelled with a `gs://` prefix.
    pub bucket: String,
    /// Whether a bucket is configured.
    pub enabled: bool,
}

impl CloudConfig {
    /// `enabled` says exactly whether a bucket is set.
    pub open spec fn wf(self) -> bool {
        self.enabled <==> self.bucket@.len() > 0
    }

    /// The configuration of a machine with no bucket set.
    pub fn empty() -> (r: CloudConfig)
        ensures
            r.bucket@.len() == 0,
            !r.enabled,
            r.wf(),
    {
        CloudConfig { bucket: String::new(), enabled: false }
    }

    /// The configuration a given bucket turns into: setting an empty
    /// bucket turns the feature off.
    pub fn with_bucket(bucket: String) -> (r: CloudConfig)
        ensures
            r.bucket == bucket,
            r.enabled <==> bucket@.len() > 0,
            r.wf(),
    {
        let enabled = !bucket.as_str().is_empty();
        CloudConfig { bucket, enabled }
    }

    /// Reads a configuration document.  Nothing for a text that does not
    /// parse; otherwise the bucket field — absent counting as empty — and
    /// the feature flag derived from it.
    pub fn from_config_text(text: &str) -> (r: Option<CloudConfig>)
        ensures
            r is Some <==> config_bucket(text@) is Some,
            r matches Some(c) ==> config_bucket(text@) == Some(c.bucket@) && c.wf(),
    {
        match read_config_bucket(text) {
            Some(b) => Some(Self::with_bucket(b)),
            None => None,
        }
    }

    /// The configuration document for this configuration: reading it back
    /// yields the same bucket.
    pub fn config_text(&self) -> (r: String)
        ensures
            config_bucket(r@) == Some(self.bucket@),
    {
        encode_bucket_config(self.bucket.as_str())
    }
}

/// A bucket spelling without one leading `gs://`.
pub open spec fn spec_bucket_name(b: Seq<char>) -> Seq<char> {
    if b.len() >= 5 && b.take(5) == "gs://"@ {
        b.skip(5)
    } else {
        b
    }
}

/// The bucket without one leading `gs://`.
pub fn bucket_name(bucket: &str) -> (r: Vec<char>)
    ensures
        r@ == spec_bucket_name(bucket@),
{
    proof {
        reveal_strlit("gs://");
    }
    let cs = chars_of(bucket);
    let gs = chars_of("gs://");
    if has_prefix(&cs, &gs) {
        tail_from(&cs, 5)
    } else {
        tail_from(&cs, 0)
    }
}

/// The bucket object a container file is shared at: the bucket and the
/// file's own name.
pub fn gcs_object_uri(bucket: &str, file_name: &str) -> (r: String)
    ensures
        r@ == "gs://"@ + spec_bucket_name(bucket@) + "/"@ + file_name@,
{
    let name = bucket_name(bucket);
    let mut s = String::from_str("gs://");
    let ns = string_from_chars(&name);
    s.append(ns.as_str());
    s.append("/");
    s.append(file_name);
    proof {
        assert(s@ =~= "gs://"@ + spec_bucket_name(bucket@) + "/"@ + file_name@);
    }
    s
}

/// The bucket object a transcript is backed up at: under `sessions/`, by
/// project directory name and record file name.
pub fn gcs_session_uri(bucket: &str, project_dir: &str, file_name: &str) -> (r: String)
    ensures
        r@ == "gs://"@ + spec_bucket_name(bucket@) + "/sessions/"@ + project_dir@ + "/"@
            + file_name@,
{
    let name = bucket_name(bucket);
    let mut s = String::from_str("gs://");
    let ns = string_from_chars(&name);
    s.append(ns.as_str());
    s.append("/sessions/");
    s.append(project_dir);
    s.append("/");
    s.append(file_name);
    proof {
        assert(s@ =~= "gs://"@ + spec_bucket_name(bucket@) + "/sessions/"@ + project_dir@ + "/"@
            + file_name@);
    }
    s
}

/// `s` split at its first `sep`: the parts before and after, or nothing
/// when `sep` does not occur.
pub open spec fn spec_split_once(s: Seq<char>, sep: char) -> Option<(Seq<char>, Seq<char>)>
    decreases s.len(),
{
    if s.len() == 0 {
        None
    } else if s[0] == sep {
        Some((Seq::empty(), s.drop_first()))
    } else {
        match spec_split_once(s.drop_first(), sep) {
            Some(parts) => Some((seq![s[0]] + parts.0, parts.1)),
            None => None,
        }
    }
}

proof fn lemma_split_once_at(s: Seq<char>, sep: char, k: int)
    requires
        0 <= k < s.len(),
        s[k] == sep,
        forall|j: int| 0 <= j < k ==> s[j] != sep,
    ensures
        spec_split_once(s, sep) == Some((s.take(k), s.skip(k + 1))),
    decreases s.len(),
{
    if k == 0 {
        assert(s.take(0) =~= Seq::<char>::empty());
        assert(s.drop_first() =~= s.skip(1));
    } else {
        lemma_split_once_at(s.drop_first(), sep, k - 1);
        assert(s.drop_first().take(k - 1) =~= s.take(k).drop_first());
        assert(s.drop_first().skip(k) =~= s.skip(k + 1));
        assert(seq![s[0]] + s.take(k).drop_first() =~= s.take(k));
    }
}

proof fn lemma_split_once_none(s: Seq<char>, sep: char)
    requires
        forall|j: int| 0 <= j < s.len() ==> s[j] != sep,
    ensures
        spec_split_once(s, sep) is None,
    decreases s.len(),
{
    if s.len() > 0 {
        lemma_split_once_none(s.drop_first(), sep);
    }
}

/// Splits `v` at its first `sep`.
pub fn split_once_char(v: &Vec<char>, sep: char) -> (r: Option<(Vec<char>, Vec<char>)>)
    ensures
        r is Some <==> spec_split_once(v@, sep) is Some,
        r matches Some(parts) ==> spec_split_once(v@, sep) == Some((parts.0@, parts.1@)),
{
    let n = v.len();
    let mut k: usize = 0;
    while k < n
        invariant
            k <= n,
            n == v@.len(),
            forall|j: int| 0 <= j < k ==> v@[j] != sep,
        decreases n - k,
    {
        if v[k] == sep {
            let before = prefix_of(v, k);
            let after = tail_from(v, k + 1);
            proof {
                lemma_split_once_at(v@, sep, k as int);
            }
            return Some((before, after));
        }
        k = k + 1;
    }
    proof {
        lemma_split_once_none(v@, sep);
    }
    None
}

/// The first `k` characters of `v`.
fn prefix_of(v: &Vec<char>, k: usize) -> (r: Vec<char>)
    requires
        k <= v@.len(),
    ensures
        r@ == v@.take(k as int),
{
    let mut out: Vec<char> = Vec::new();
    let mut i: usize = 0;
    while i < k
        invariant
            i <= k <= v@.len(),
            out@ == v@.subrange(0, i as int),
        decreases k - i,
    {
        out.push(v[i]);
        proof {
            assert(out@ =~= v@.subrange(0, i + 1 as int));
        }
        i = i + 1;
    }
    proof {
        assert(out@ =~= v@.take(k as int));
    }
    out
}

/// What a bucket listing line names, relative to the bucket's `sessions/`
/// area: the project directory and the record file.  Nothing for listing
/// headers — lines ending in a colon — and for lines outside that area.
pub open spec fn spec_listing_entry(line: Seq<char>, bucket: Seq<char>) -> Option<(
    Seq<char>,
    Seq<char>,
)> {
    let prefix = "gs://"@ + spec_bucket_name(bucket) + "/sessions/"@;
    if line.len() > 0 && line.last() == ':' {
        None
    } else if line.len() >= prefix.len() && line.take(prefix.len() as int) == prefix {
        spec_split_once(line.skip(prefix.len() as int), '/')
    } else {
        None
    }
}

/// Reads one line of a recursive bucket listing back into a project
/// directory name and a record file name.
pub fn parse_listing_line(line: &str, bucket: &str) -> (r: Option<(String, String)>)
    ensures
        r is Some <==> spec_listing_entry(line@, bucket@) is Some,
        r matches Some(parts) ==> spec_listing_entry(line@, bucket@) == Some(
            (parts.0@, parts.1@),
        ),
{
    let cs = chars_of(line);
    let n = cs.len();
    if n > 0 && cs[n - 1] == ':' {
        return None;
    }
    let name = bucket_name(bucket);
    let mut prefix: Vec<char> = chars_of("gs://");
    let mut i: usize = 0;
    let m = name.len();
    while i < m
        invariant
            i <= m,
            m == name@.len(),
            prefix@ == "gs://"@ + name@.subrange(0, i as int),
        decreases m - i,
    {
        prefix.push(name[i]);
        proof {
            assert(prefix@ =~= "gs://"@ + name@.subrange(0, i + 1 as int));
        }
        i = i + 1;
    }
    let sess = chars_of("/sessions/");
    let mut j: usize = 0;
    let sm = sess.len();
    while j < sm
        invariant
            j <= sm,
            sm == sess@.len(),
            sess@ == "/sessions/"@,
            name@ == spec_bucket_name(bucket@),
            prefix@ == "gs://"@ + name@ + "/sessions/"@.subrange(0, j as int),
        decreases sm - j,
    {
        prefix.push(sess[j]);
        proof {
            assert(prefix@ =~= "gs://"@ + name@ + "/sessions/"@.subrange(0, j + 1 as int));
        }
        j = j + 1;
    }
    proof {
        assert(name@.subrange(0, name@.len() as int) =~= name@);
        assert("/sessions/"@.subrange(0, "/sessions/"@.len() as int) =~= "/sessions/"@);
        assert(prefix@ =~= "gs://"@ + spec_bucket_name(bucket@) + "/sessions/"@);
    }
    if !has_prefix(&cs, &prefix) {
        return None;
    }
    let rest = tail_from(&cs, prefix.len());
    match split_once_char(&rest, '/') {
        Some(parts) => Some((string_from_chars(&parts.0), string_from_chars(&parts.1))),
        None => None,
    }
}

} // verus!
