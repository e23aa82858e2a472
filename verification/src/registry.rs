//! Reading a container registry listing — the JSON that `gcloud` prints for
//! an image path — into image metadata, and the presentation of that
//! metadata: the tag list, the shortened digest, and a human age.
//!
//! Running `gcloud` is the shell's job; everything decided about its output
//! is here.

use vstd::prelude::*;
use crate::text;

verus! {

/// Why a registry listing cannot be read.
#[derive(Clone, Copy, PartialEq, Eq, Structural, Debug)]
pub enum RegistryError {
    /// The listing is not a JSON array.
    UnreadableListing,
}

/// One image the registry knows: its tags, when it was last updated (seconds
/// since the Unix epoch), and its full digest name.
#[derive(Debug, Clone)]
pub struct ImageMetadata {
    pub tags: Vec<String>,
    pub update_time: i64,
    pub name: String,
}

/// The mathematical value of an `ImageMetadata`.
pub ghost struct ImageMetadataV {
    pub tags: Seq<Seq<char>>,
    pub update_time: int,
    pub name: Seq<char>,
}

impl View for ImageMetadata {
    type V = ImageMetadataV;

    open spec fn view(&self) -> ImageMetadataV {
        ImageMetadataV {
            tags: self.tags.deep_view(),
            update_time: self.update_time as int,
            name: self.name@,
        }
    }
}

impl DeepView for ImageMetadata {
    type V = ImageMetadataV;

    open spec fn deep_view(&self) -> ImageMetadataV {
        self.view()
    }
}

/// The number of elements of `s` parsed as a JSON array, when it is one.
pub uninterp spec fn json_arr_len_of(s: Seq<char>) -> Option<int>;

/// The string at `key` of the `i`-th element of `s` parsed as a JSON array,
/// when all of that exists.
pub uninterp spec fn json_elem_str_at(s: Seq<char>, i: int, key: Seq<char>) -> Option<Seq<char>>;

/// The array of `key` of the `i`-th element, each item given as its string
/// when it is one.
pub uninterp spec fn json_elem_str_list_at(s: Seq<char>, i: int, key: Seq<char>) -> Option<
    Seq<Option<Seq<char>>>,
>;

/// The string at `k2` inside the object at `k1` of the `i`-th element.
pub uninterp spec fn json_elem_nested_str_at(
    s: Seq<char>,
    i: int,
    k1: Seq<char>,
    k2: Seq<char>,
) -> Option<Seq<char>>;

/// The signed integer at `k2` inside the object at `k1` of the `i`-th
/// element.
pub uninterp spec fn json_elem_nested_int_at(
    s: Seq<char>,
    i: int,
    k1: Seq<char>,
    k2: Seq<char>,
) -> Option<int>;

/// The unsigned integer at `k2` inside the object at `k1` of the `i`-th
/// element.
pub uninterp spec fn json_elem_nested_uint_at(
    s: Seq<char>,
    i: int,
    k1: Seq<char>,
    k2: Seq<char>,
) -> Option<int>;

/// Relies on serde_json::from_str::<Value> and Value::as_array: the length
/// of the document parsed as a JSON array, a function of the text alone.
#[verifier::external_body]
fn json_arr_len(raw: &str) -> (r: Option<usize>)
    ensures
        match r {
            Some(n) => json_arr_len_of(raw@) == Some(n as int),
            None => json_arr_len_of(raw@) is None,
        },
{
    serde_json::from_str::<serde_json::Value>(raw).ok().and_then(|v| v.as_array().map(|a| a.len()))
}

/// Relies on serde_json::from_str::<Value>, Value::as_array, slice::get,
/// Value::get and Value::as_str, a function of the text, index and key.
#[verifier::external_body]
fn json_elem_str(raw: &str, i: usize, key: &str) -> (r: Option<String>)
    ensures
        r.deep_view() == json_elem_str_at(raw@, i as int, key@),
{
    serde_json::from_str::<serde_json::Value>(raw).ok().and_then(
        |v|
            v.as_array().and_then(
                |a| a.get(i).and_then(|e| e.get(key).and_then(|x| x.as_str().map(String::from))),
            ),
    )
}

/// Relies on the same serde_json calls, reading an array of values and
/// keeping each item's string form, item for item.
#[verifier::external_body]
fn json_elem_str_list(raw: &str, i: usize, key: &str) -> (r: Option<Vec<Option<String>>>)
    ensures
        r.deep_view() == json_elem_str_list_at(raw@, i as int, key@),
{
    serde_json::from_str::<serde_json::Value>(raw).ok().and_then(
        |v|
            v.as_array().and_then(
                |a|
                    a.get(i).and_then(
                        |e|
                            e.get(key).and_then(|t| t.as_array()).map(
                                |arr| arr.iter().map(
                                    |x| x.as_str().map(String::from),
                                ).collect(),
                            ),
                    ),
            ),
    )
}

/// Relies on the same serde_json calls, one object level deeper.
#[verifier::external_body]
fn json_elem_nested_str(raw: &str, i: usize, k1: &str, k2: &str) -> (r: Option<String>)
    ensures
        r.deep_view() == json_elem_nested_str_at(raw@, i as int, k1@, k2@),
{
    serde_json::from_str::<serde_json::Value>(raw).ok().and_then(
        |v|
            v.as_array().and_then(
                |a|
                    a.get(i).and_then(
                        |e|
                            e.get(k1).and_then(
                                |o| o.get(k2).and_then(|x| x.as_str().map(String::from)),
                            ),
                    ),
            ),
    )
}

/// Relies on the same serde_json calls with Value::as_i64.
#[verifier::external_body]
fn json_elem_nested_i64(raw: &str, i: usize, k1: &str, k2: &str) -> (r: Option<i64>)
    ensures
        match r {
            Some(x) => json_elem_nested_int_at(raw@, i as int, k1@, k2@) == Some(x as int),
            None => json_elem_nested_int_at(raw@, i as int, k1@, k2@) is None,
        },
{
    serde_json::from_str::<serde_json::Value>(raw).ok().and_then(
        |v|
            v.as_array().and_then(
                |a| a.get(i).and_then(|e| e.get(k1).and_then(|o| o.get(k2).and_then(|x| x.as_i64()))),
            ),
    )
}

/// Relies on the same serde_json calls with Value::as_u64.
#[verifier::external_body]
fn json_elem_nested_u64(raw: &str, i: usize, k1: &str, k2: &str) -> (r: Option<u64>)
    ensures
        match r {
            Some(x) => json_elem_nested_uint_at(raw@, i as int, k1@, k2@) == Some(x as int),
            None => json_elem_nested_uint_at(raw@, i as int, k1@, k2@) is None,
        },
{
    serde_json::from_str::<serde_json::Value>(raw).ok().and_then(
        |v|
            v.as_array().and_then(
                |a| a.get(i).and_then(|e| e.get(k1).and_then(|o| o.get(k2).and_then(|x| x.as_u64()))),
            ),
    )
}

/// The epoch second a `YYYY-MM-DD HH:MM:SS+ZZ:ZZ` timestamp denotes, when it
/// parses.
pub uninterp spec fn epoch_of_offset_datetime(s: Seq<char>) -> Option<int>;

/// The epoch second a plain `YYYY-MM-DD HH:MM:SS` timestamp denotes, read as
/// UTC, when it parses.
pub uninterp spec fn epoch_of_naive_datetime(s: Seq<char>) -> Option<int>;

/// The epoch second of a calendar date and clock time given field by field,
/// when they form a valid date.
pub uninterp spec fn epoch_of_ymdhms(y: int, mo: int, d: int, h: int, mi: int, s: int) -> Option<
    int,
>;

/// Relies on chrono's DateTime::parse_from_str with an offset format and
/// DateTime::timestamp: the outcome depends on the text alone.
#[verifier::external_body]
fn parse_offset_datetime(s: &str) -> (r: Option<i64>)
    ensures
        match r {
            Some(e) => epoch_of_offset_datetime(s@) == Some(e as int),
            None => epoch_of_offset_datetime(s@) is None,
        },
{
    chrono::DateTime::parse_from_str(s, "%Y-%m-%d %H:%M:%S%:z").ok().map(|dt| dt.timestamp())
}

/// Relies on chrono's NaiveDateTime::parse_from_str, NaiveDateTime::and_utc
/// and DateTime::timestamp: the outcome depends on the text alone.
#[verifier::external_body]
fn parse_naive_datetime(s: &str) -> (r: Option<i64>)
    ensures
        match r {
            Some(e) => epoch_of_naive_datetime(s@) == Some(e as int),
            None => epoch_of_naive_datetime(s@) is None,
        },
{
    chrono::NaiveDateTime::parse_from_str(s, "%Y-%m-%d %H:%M:%S").ok().map(
        |ndt| ndt.and_utc().timestamp(),
    )
}

/// Relies on chrono's NaiveDate::from_ymd_opt, NaiveDate::and_hms_opt,
/// NaiveDateTime::and_utc and DateTime::timestamp; the field values are
/// narrowed exactly as the listing's numbers are read.
#[verifier::external_body]
fn epoch_from_ymdhms(y: i64, mo: u64, d: u64, h: u64, mi: u64, s: u64) -> (r: Option<i64>)
    ensures
        match r {
            Some(e) => epoch_of_ymdhms(y as int, mo as int, d as int, h as int, mi as int, s as int)
                == Some(e as int),
            None => epoch_of_ymdhms(y as int, mo as int, d as int, h as int, mi as int, s as int)
                is None,
        },
{
    chrono::NaiveDate::from_ymd_opt(y as i32, mo as u32, d as u32).and_then(
        |date| date.and_hms_opt(h as u32, mi as u32, s as u32),
    ).map(|ndt| ndt.and_utc().timestamp())
}

/// Relies on chrono's Utc::now and DateTime::timestamp. The clock can say
/// anything; nothing is assumed of the value.
#[verifier::external_body]
fn now_epoch_secs() -> (r: i64) {
    chrono::Utc::now().timestamp()
}

/// The string items of a listed tag array, in order, non-strings skipped.
pub open spec fn kept_tags_from(lst: Seq<Option<Seq<char>>>, i: int) -> Seq<Seq<char>>
    decreases lst.len() - i,
{
    if i < 0 || i >= lst.len() {
        Seq::<Seq<char>>::empty()
    } else {
        match lst[i] {
            Some(t) => seq![t] + kept_tags_from(lst, i + 1),
            None => kept_tags_from(lst, i + 1),
        }
    }
}

fn kept_tags_exec(lst: &Vec<Option<String>>, i: usize) -> (r: Vec<String>)
    requires
        i <= lst@.len(),
    ensures
        r.deep_view() == kept_tags_from(lst.deep_view(), i as int),
    decreases lst@.len() - i,
{
    if i == lst.len() {
        let r: Vec<String> = Vec::new();
        proof {
            assert(r.deep_view() =~= kept_tags_from(lst.deep_view(), i as int));
        }
        r
    } else {
        let mut rest = kept_tags_exec(lst, i + 1);
        match &lst[i] {
            Some(t) => {
                let ghost rv = rest.deep_view();
                let ghost rvec = rest@;
                let cl = t.clone();
                let ghost clv = cl;
                rest.insert(0, cl);
                proof {
                    rvec.insert_ensures(0, clv);
                    assert(rest.deep_view() =~= seq![t@] + rv) by {
                        assert forall|k: int|
                            0 <= k < rest.deep_view().len() implies rest.deep_view()[k] == (
                        seq![t@] + rv)[k] by {
                            if k > 0 {
                                assert(rest@[k] == rvec[k - 1]);
                            }
                        }
                    }
                }
                rest
            },
            None => rest,
        }
    }
}

/// The epoch second of one listed element's timestamp: the offset form
/// first, then the plain form, then the timestamp's own numeric fields with
/// the listing's defaults.
pub open spec fn elem_epoch(s: Seq<char>, i: int, dt: Seq<char>) -> Option<int> {
    match epoch_of_offset_datetime(dt) {
        Some(e) => Some(e),
        None => match epoch_of_naive_datetime(dt) {
            Some(e) => Some(e),
            None => {
                let y = match json_elem_nested_int_at(s, i, "timestamp"@, "year"@) {
                    Some(v) => v,
                    None => 1970,
                };
                let mo = match json_elem_nested_uint_at(s, i, "timestamp"@, "month"@) {
                    Some(v) => v,
                    None => 1,
                };
                let d = match json_elem_nested_uint_at(s, i, "timestamp"@, "day"@) {
                    Some(v) => v,
                    None => 1,
                };
                let h = match json_elem_nested_uint_at(s, i, "timestamp"@, "hour"@) {
                    Some(v) => v,
                    None => 0,
                };
                let mi = match json_elem_nested_uint_at(s, i, "timestamp"@, "minute"@) {
                    Some(v) => v,
                    None => 0,
                };
                let sec = match json_elem_nested_uint_at(s, i, "timestamp"@, "second"@) {
                    Some(v) => v,
                    None => 0,
                };
                epoch_of_ymdhms(y, mo, d, h, mi, sec)
            },
        },
    }
}

/// The image one listed element describes: present exactly when the element
/// has a nonempty tag list, a string digest, a timestamp text, and a
/// timestamp that can be read.
pub open spec fn image_of_elem(s: Seq<char>, base: Seq<char>, i: int) -> Option<ImageMetadataV> {
    match json_elem_str_list_at(s, i, "tags"@) {
        Some(lst) => {
            let tags = kept_tags_from(lst, 0);
            if tags.len() == 0 {
                None
            } else {
                match json_elem_str_at(s, i, "digest"@) {
                    Some(digest) => match json_elem_nested_str_at(s, i, "timestamp"@, "datetime"@) {
                        Some(dt) => match elem_epoch(s, i, dt) {
                            Some(e) => Some(
                                ImageMetadataV {
                                    tags,
                                    update_time: e,
                                    name: base + "@"@ + digest,
                                },
                            ),
                            None => None,
                        },
                        None => None,
                    },
                    None => None,
                }
            }
        },
        None => None,
    }
}

/// The images of the listing's elements from `i` on, unreadable elements
/// skipped.
pub open spec fn images_from(s: Seq<char>, base: Seq<char>, i: int, n: int) -> Seq<ImageMetadataV>
    decreases n - i,
{
    if i >= n {
        Seq::<ImageMetadataV>::empty()
    } else {
        match image_of_elem(s, base, i) {
            Some(im) => seq![im] + images_from(s, base, i + 1, n),
            None => images_from(s, base, i + 1, n),
        }
    }
}

fn image_of_elem_exec(raw: &str, base: &str, i: usize) -> (r: Option<ImageMetadata>)
    ensures
        r.deep_view() == image_of_elem(raw@, base@, i as int),
{
    let lst = match json_elem_str_list(raw, i, "tags") {
        Some(l) => l,
        None => {
            return None;
        },
    };
    let tags = kept_tags_exec(&lst, 0);
    if tags.len() == 0 {
        return None;
    }
    let digest = match json_elem_str(raw, i, "digest") {
        Some(d) => d,
        None => {
            return None;
        },
    };
    let dt = match json_elem_nested_str(raw, i, "timestamp", "datetime") {
        Some(d) => d,
        None => {
            return None;
        },
    };
    let epoch: i64 = match parse_offset_datetime(dt.as_str()) {
        Some(e) => e,
        None => match parse_naive_datetime(dt.as_str()) {
            Some(e) => e,
            None => {
                let y = match json_elem_nested_i64(raw, i, "timestamp", "year") {
                    Some(v) => v,
                    None => 1970,
                };
                let mo = match json_elem_nested_u64(raw, i, "timestamp", "month") {
                    Some(v) => v,
                    None => 1,
                };
                let d = match json_elem_nested_u64(raw, i, "timestamp", "day") {
                    Some(v) => v,
                    None => 1,
                };
                let h = match json_elem_nested_u64(raw, i, "timestamp", "hour") {
                    Some(v) => v,
                    None => 0,
                };
                let mi = match json_elem_nested_u64(raw, i, "timestamp", "minute") {
                    Some(v) => v,
                    None => 0,
                };
                let sec = match json_elem_nested_u64(raw, i, "timestamp", "second") {
                    Some(v) => v,
                    None => 0,
                };
                match epoch_from_ymdhms(y, mo, d, h, mi, sec) {
                    Some(e) => e,
                    None => {
                        return None;
                    },
                }
            },
        },
    };
    let mut name = base.to_owned();
    name.append("@");
    name.append(digest.as_str());
    Some(ImageMetadata { tags, update_time: epoch, name })
}

/// Registry listings.
pub struct Registry;

impl Registry {
    /// Reads the JSON a registry listing printed for `base_image` into image
    /// metadata, in listing order. Fails exactly when the text is not a JSON
    /// array; an element that lacks tags, digest or a readable timestamp is
    /// skipped, as a listing may mix entry shapes.
    pub fn parse_gcr_images(raw: &str, base_image: &str) -> (r: Result<
        Vec<ImageMetadata>,
        RegistryError,
    >)
        ensures
            r matches Ok(v) ==> json_arr_len_of(raw@) matches Some(n) && v.deep_view()
                == images_from(raw@, base_image@, 0, n),
            r is Err <==> json_arr_len_of(raw@) is None,
            r matches Err(e) ==> e == RegistryError::UnreadableListing,
    {
        let n = match json_arr_len(raw) {
            Some(n) => n,
            None => {
                return Err(RegistryError::UnreadableListing);
            },
        };
        let mut out: Vec<ImageMetadata> = Vec::new();
        let mut i: usize = 0;
        proof {
            assert(out.deep_view() =~= Seq::<ImageMetadataV>::empty());
        }
        while i < n
            invariant
                json_arr_len_of(raw@) == Some(n as int),
                0 <= i <= n,
                images_from(raw@, base_image@, 0, n as int) == out.deep_view() + images_from(
                    raw@,
                    base_image@,
                    i as int,
                    n as int,
                ),
            decreases n - i,
        {
            let ghost acc = out.deep_view();
            match image_of_elem_exec(raw, base_image, i) {
                Some(im) => {
                    out.push(im);
                    proof {
                        assert(out.deep_view() =~= acc.push(
                            image_of_elem(raw@, base_image@, i as int)->0,
                        ));
                        assert(acc.push(image_of_elem(raw@, base_image@, i as int)->0) + images_from(
                            raw@,
                            base_image@,
                            i + 1,
                            n as int,
                        ) =~= acc + images_from(raw@, base_image@, i as int, n as int));
                    }
                },
                None => {},
            }
            i = i + 1;
        }
        proof {
            assert(out.deep_view() + images_from(raw@, base_image@, n as int, n as int)
                =~= out.deep_view());
        }
        Ok(out)
    }
}

/// The age line of an image updated `delta_secs` ago: whole days, else whole
/// hours, else whole minutes, else `just now` (also for anything updated in
/// the future).
pub open spec fn age_text_spec(delta_secs: int) -> Seq<char> {
    if delta_secs >= 86400 {
        text::dec_seq(delta_secs / 86400) + "d ago"@
    } else if delta_secs >= 3600 {
        text::dec_seq(delta_secs / 3600) + "h ago"@
    } else if delta_secs >= 60 {
        text::dec_seq(delta_secs / 60) + "m ago"@
    } else {
        "just now"@
    }
}

/// Formats an age from a difference of epoch seconds.
pub fn age_text(delta_secs: i64) -> (r: String)
    ensures
        r@ == age_text_spec(delta_secs as int),
{
    if delta_secs >= 86400 {
        let days = delta_secs / 86400;
        let mut out = text::u64_to_dec(days as u64);
        out.append("d ago");
        out
    } else if delta_secs >= 3600 {
        let hours = delta_secs / 3600;
        let mut out = text::u64_to_dec(hours as u64);
        out.append("h ago");
        out
    } else if delta_secs >= 60 {
        let minutes = delta_secs / 60;
        let mut out = text::u64_to_dec(minutes as u64);
        out.append("m ago");
        out
    } else {
        String::from_str("just now")
    }
}

impl ImageMetadata {
    /// The tags joined for display.
    pub fn display_tag(&self) -> (r: String)
        ensures
            r@ == text::joined(self.tags.deep_view(), ", "@),
    {
        text::join_strings(&self.tags, ", ")
    }

    /// The first seven characters of the image's `sha256` digest, or
    /// `unknown` when the name does not carry one.
    pub fn short_hash(&self) -> (r: String)
        ensures
            r@ == short_hash_spec(self.name@),
    {
        let h = text::last_segment(self.name.as_str(), '@');
        proof {
            reveal_strlit("sha256:");
        }
        if text::str_starts_with(h, "sha256:") {
            let hl = h.unicode_len();
            if hl >= 14 {
                return h.substring_char(7, 14).to_owned();
            }
        }
        String::from_str("unknown")
    }

    /// The image's age as text, measured against the wall clock; the exact
    /// wording for any clock reading is fixed by `age_text_spec`.
    pub fn age_string(&self) -> (r: String)
        ensures
            exists|delta: int| r@ == age_text_spec(delta),
    {
        let now = now_epoch_secs();
        let delta = now.checked_sub(self.update_time);
        match delta {
            Some(d) => age_text(d),
            None => age_text(0),
        }
    }
}

/// The shortened digest: the seven characters after `sha256:` in the name's
/// last `@`-separated segment, or `unknown`.
pub open spec fn short_hash_spec(name: Seq<char>) -> Seq<char> {
    let h = text::tail_after_last(name, '@');
    if text::starts_with_seq(h, "sha256:"@) && h.len() >= 14 {
        h.subrange(7, 14)
    } else {
        "unknown"@
    }
}

/// One line of the tag-selection prompt: the joined tags left-aligned to
/// fifteen characters, the age in parentheses, the short digest in brackets.
pub open spec fn describe_image_spec(
    tag_text: Seq<char>,
    age: Seq<char>,
    hash: Seq<char>,
) -> Seq<char> {
    text::padded_right(tag_text, 15) + " ("@ + age + ") ["@ + hash + "]"@
}

/// Formats one line of the tag-selection prompt.
pub fn describe_image(tag_text: &str, age: &str, hash: &str) -> (r: String)
    ensures
        r@ == describe_image_spec(tag_text@, age@, hash@),
{
    let mut out = text::pad_right(tag_text, 15);
    out.append(" (");
    out.append(age);
    out.append(") [");
    out.append(hash);
    out.append("]");
    out
}

/// Sample images for a dry run without registry access: three entries aged
/// two hours, one day and five days, with fixed tags and digests.
pub fn mock_images(now_secs: i64) -> (r: Vec<ImageMetadata>)
    requires
        now_secs >= 0,
    ensures
        r.deep_view().len() == 3,
        r.deep_view()[0].tags == seq!["v1.2.3"@, "latest"@],
        r.deep_view()[0].update_time == now_secs - 7200,
        r.deep_view()[0].name == "auth-service@sha256:abcdef123456789"@,
        r.deep_view()[1].tags == seq!["v1.2.2"@],
        r.deep_view()[1].update_time == now_secs - 86400,
        r.deep_view()[1].name == "auth-service@sha256:123456789abcdef"@,
        r.deep_view()[2].tags == seq!["v1.1.0"@],
        r.deep_view()[2].update_time == now_secs - 432000,
        r.deep_view()[2].name == "auth-service@sha256:987654321fedcba"@,
{
    let mut tags0: Vec<String> = Vec::new();
    tags0.push(String::from_str("v1.2.3"));
    tags0.push(String::from_str("latest"));
    let mut tags1: Vec<String> = Vec::new();
    tags1.push(String::from_str("v1.2.2"));
    let mut tags2: Vec<String> = Vec::new();
    tags2.push(String::from_str("v1.1.0"));
    let mut r: Vec<ImageMetadata> = Vec::new();
    r.push(
        ImageMetadata {
            tags: tags0,
            update_time: now_secs - 7200,
            name: String::from_str("auth-service@sha256:abcdef123456789"),
        },
    );
    r.push(
        ImageMetadata {
            tags: tags1,
            update_time: now_secs - 86400,
            name: String::from_str("auth-service@sha256:123456789abcdef"),
        },
    );
    r.push(
        ImageMetadata {
            tags: tags2,
            update_time: now_secs - 432000,
            name: String::from_str("auth-service@sha256:987654321fedcba"),
        },
    );
    proof {
        assert(r.deep_view().len() == 3);
        assert(r.deep_view()[0].tags =~= seq!["v1.2.3"@, "latest"@]);
        assert(r.deep_view()[1].tags =~= seq!["v1.2.2"@]);
        assert(r.deep_view()[2].tags =~= seq!["v1.1.0"@]);
    }
    r
}

} // verus!
