//! Form values, naming rules, query parameters and media extensions.

use vstd::prelude::*;
use crate::DEFAULT_FREQUENCY_HOURS;
use crate::text::{
    chars_of, decimal, ends_with, lemma_lex_le_antisymmetric, lemma_lex_le_total, lemma_lex_le_transitive, lex_le, lex_le_chars,
    str_eq, u64_to_decimal,
};

verus! {

/// The view of an optional owned string.
pub open spec fn opt_view(o: Option<String>) -> Option<Seq<char>> {
    match o {
        Some(s) => Some(s@),
        None => None,
    }
}

/// The view of an optional string slice.
pub open spec fn opt_str_view(o: Option<&str>) -> Option<Seq<char>> {
    match o {
        Some(s) => Some(s@),
        None => None,
    }
}

/// The refresh interval a form value selects: one of the offered choices,
/// otherwise the default.
pub open spec fn frequency_for(value: Option<Seq<char>>) -> u64 {
    match value {
        Some(v) => if v == "0"@ {
            0
        } else if v == "1"@ {
            1
        } else if v == "24"@ {
            24
        } else if v == "168"@ {
            168
        } else if v == "720"@ {
            720
        } else {
            DEFAULT_FREQUENCY_HOURS
        },
        None => DEFAULT_FREQUENCY_HOURS,
    }
}

/// Converts a form frequency value into hours.
pub fn parse_frequency(value: Option<String>) -> (hours: u64)
    ensures
        hours == frequency_for(opt_view(value)),
{
    match value {
        Some(v) => {
            let s = v.as_str();
            if str_eq(s, "0") {
                0
            } else if str_eq(s, "1") {
                1
            } else if str_eq(s, "24") {
                24
            } else if str_eq(s, "168") {
                168
            } else if str_eq(s, "720") {
                720
            } else {
                DEFAULT_FREQUENCY_HOURS
            }
        },
        None => DEFAULT_FREQUENCY_HOURS,
    }
}

/// The label shown for a refresh interval.
pub open spec fn frequency_text(hours: u64) -> Seq<char> {
    if hours == 0 {
        "never"@
    } else if hours == 1 {
        "hourly"@
    } else if hours == 4 {
        "4 hours"@
    } else if hours == 24 {
        "daily"@
    } else if hours == 168 {
        "weekly"@
    } else if hours == 720 {
        "monthly"@
    } else {
        decimal(hours as nat) + "h"@
    }
}

/// Formats a refresh interval for status and notification messages.
pub fn frequency_label(hours: u64) -> (label: String)
    ensures
        label@ == frequency_text(hours),
{
    if hours == 0 {
        String::from_str("never")
    } else if hours == 1 {
        String::from_str("hourly")
    } else if hours == 4 {
        String::from_str("4 hours")
    } else if hours == 24 {
        String::from_str("daily")
    } else if hours == 168 {
        String::from_str("weekly")
    } else if hours == 720 {
        String::from_str("monthly")
    } else {
        u64_to_decimal(hours).concat("h")
    }
}

/// Characters allowed in image names: ASCII letters, digits, `-` and `_`.
pub open spec fn name_char(c: char) -> bool {
    ||| 'a' <= c <= 'z'
    ||| 'A' <= c <= 'Z'
    ||| '0' <= c <= '9'
    ||| c == '-'
    ||| c == '_'
}

/// A name usable as a storage key and public URL segment: at most 64
/// allowed characters, and not the reserved word `refresh`.  (Allowed
/// characters are ASCII, so 64 characters are 64 bytes.)
pub open spec fn valid_name_spec(name: Seq<char>) -> bool {
    &&& name.len() <= 64
    &&& name != "refresh"@
    &&& forall|i: int| 0 <= i < name.len() ==> #[trigger] name_char(name[i])
}

/// Validates names used as KV keys and public URL segments.
pub fn valid_name(name: &str) -> (ok: bool)
    ensures
        ok == valid_name_spec(name@),
{
    let v = chars_of(name);
    if v.len() > 64 {
        return false;
    }
    if str_eq(name, "refresh") {
        return false;
    }
    let mut i: usize = 0;
    while i < v.len()
        invariant
            v@ == name@,
            i <= v@.len(),
            forall|k: int| 0 <= k < i ==> #[trigger] name_char(name@[k]),
        decreases v.len() - i,
    {
        let c = v[i];
        let allowed = ('a' <= c && c <= 'z') || ('A' <= c && c <= 'Z') || ('0' <= c && c <= '9')
            || c == '-' || c == '_';
        if !allowed {
            assert(!name_char(name@[i as int]));
            return false;
        }
        i = i + 1;
    }
    true
}

/// The pairs that `form_urlencoded::parse` decodes from a query string.
pub uninterp spec fn form_pairs(query: Seq<char>) -> Seq<(Seq<char>, Seq<char>)>;

/// The views of decoded name/value pairs.
pub open spec fn pairs_view(pairs: Seq<(String, String)>) -> Seq<(Seq<char>, Seq<char>)> {
    pairs.map_values(|p: (String, String)| (p.0@, p.1@))
}

/// Decodes an `application/x-www-form-urlencoded` query string with
/// `form_urlencoded::parse` (re-exported by `worker::url`).  Trusted: the
/// result is the named function of the query; the source returns no pair for
/// an empty input.
#[verifier::external_body]
fn decode_form_pairs(query: &str) -> (pairs: Vec<(String, String)>)
    ensures
        pairs_view(pairs@) == form_pairs(query@),
        query@.len() == 0 ==> pairs@.len() == 0,
{
    worker::url::form_urlencoded::parse(query.as_bytes()).map(
        |(k, v)| (k.into_owned(), v.into_owned()),
    ).collect()
}

/// The value of the first pair named `key`.
pub open spec fn first_value(pairs: Seq<(Seq<char>, Seq<char>)>, key: Seq<char>) -> Option<
    Seq<char>,
>
    decreases pairs.len(),
{
    if pairs.len() == 0 {
        None
    } else if pairs[0].0 == key {
        Some(pairs[0].1)
    } else {
        first_value(pairs.drop_first(), key)
    }
}

/// The decoded value of parameter `key` in a URL's query (absent query: none).
pub open spec fn query_value(query: Option<Seq<char>>, key: Seq<char>) -> Option<Seq<char>> {
    match query {
        Some(q) => first_value(form_pairs(q), key),
        None => first_value(form_pairs(Seq::empty()), key),
    }
}

/// The value of the first decoded pair named `key`.
pub fn first_match(pairs: &Vec<(String, String)>, key: &str) -> (value: Option<String>)
    ensures
        opt_view(value) == first_value(pairs_view(pairs@), key@),
{
    let ghost all = pairs_view(pairs@);
    let mut i: usize = 0;
    assert(all.skip(0) =~= all);
    while i < pairs.len()
        invariant
            all == pairs_view(pairs@),
            i <= pairs@.len(),
            first_value(all, key@) == first_value(all.skip(i as int), key@),
        decreases pairs.len() - i,
    {
        assert(all.skip(i as int)[0] == (pairs@[i as int].0@, pairs@[i as int].1@));
        if str_eq(pairs[i].0.as_str(), key) {
            let value = pairs[i].1.clone();
            assert(value@ == all.skip(i as int)[0].1);
            return Some(value);
        }
        assert(all.skip(i as int).drop_first() =~= all.skip(i + 1));
        i = i + 1;
    }
    None
}

/// Returns one decoded query parameter from a URL's query string.
pub fn query_param(query: Option<&str>, key: &str) -> (value: Option<String>)
    ensures
        opt_view(value) == query_value(opt_str_view(query), key@),
{
    let q: &str = match query {
        Some(q) => q,
        None => "",
    };
    proof {
        reveal_strlit("");
        match query {
            Some(_) => {},
            None => {
                assert(q@ =~= Seq::<char>::empty());
            },
        }
    }
    let pairs = decode_form_pairs(q);
    first_match(&pairs, key)
}

/// Whether a request's query carries `key` equal to the expected secret.
pub open spec fn authorized_spec(query: Option<Seq<char>>, expected: Seq<char>) -> bool {
    query_value(query, "key"@) == Some(expected)
}

/// Checks the key supplied in a request's query against the configured secret.
pub fn authorized(query: Option<&str>, expected: &str) -> (ok: bool)
    ensures
        ok == authorized_spec(opt_str_view(query), expected@),
{
    match query_param(query, "key") {
        Some(k) => str_eq(k.as_str(), expected),
        None => false,
    }
}

/// Media extensions accepted at the end of public names, in the order they
/// are tried.
pub open spec fn known_extensions() -> Seq<Seq<char>> {
    seq![
        ".gif"@,
        ".png"@,
        ".jpg"@,
        ".jpeg"@,
        ".webp"@,
        ".svg"@,
        ".webm"@,
        ".mp4"@,
        ".avif"@,
    ]
}

/// `name` without the first extension of `exts` that ends it.
pub open spec fn strip_first_suffix(name: Seq<char>, exts: Seq<Seq<char>>) -> Seq<char>
    decreases exts.len(),
{
    if exts.len() == 0 {
        name
    } else if exts[0].is_suffix_of(name) {
        name.subrange(0, name.len() - exts[0].len())
    } else {
        strip_first_suffix(name, exts.drop_first())
    }
}

/// `name` with a known media extension removed, when it ends with one.
pub open spec fn stripped_name(name: Seq<char>) -> Seq<char> {
    strip_first_suffix(name, known_extensions())
}

/// Removes a supported media extension from a public name.
pub fn strip_known_extension(name: &str) -> (base: &str)
    ensures
        base@ == stripped_name(name@),
{
    let exts: [&str; 9] = [
        ".gif",
        ".png",
        ".jpg",
        ".jpeg",
        ".webp",
        ".svg",
        ".webm",
        ".mp4",
        ".avif",
    ];
    let ghost known = known_extensions();
    assert(exts@.map_values(|e: &str| e@) =~= known);
    let n = chars_of(name).len();
    let mut i: usize = 0;
    assert(known.skip(0) =~= known);
    while i < 9
        invariant
            n == name@.len(),
            i <= 9,
            known == known_extensions(),
            exts@.map_values(|e: &str| e@) == known,
            stripped_name(name@) == strip_first_suffix(name@, known.skip(i as int)),
        decreases 9 - i,
    {
        let ext = exts[i];
        assert(known.skip(i as int)[0] == ext@);
        if ends_with(name, ext) {
            let m = chars_of(ext).len();
            return name.substring_char(0, n - m);
        }
        assert(known.skip(i as int).drop_first() =~= known.skip(i + 1));
        i = i + 1;
    }
    assert(known.skip(9) =~= Seq::<Seq<char>>::empty());
    name.substring_char(0, n)
}

/// The public URL extension for a MIME type (empty for unknown types).
pub open spec fn extension_text(content_type: Seq<char>) -> Seq<char> {
    if content_type == "image/gif"@ {
        ".gif"@
    } else if content_type == "image/png"@ {
        ".png"@
    } else if content_type == "image/jpeg"@ {
        ".jpg"@
    } else if content_type == "image/webp"@ {
        ".webp"@
    } else if content_type == "image/svg+xml"@ {
        ".svg"@
    } else if content_type == "video/webm"@ {
        ".webm"@
    } else if content_type == "video/mp4"@ {
        ".mp4"@
    } else if content_type == "image/avif"@ {
        ".avif"@
    } else {
        ""@
    }
}

/// Returns the public URL extension associated with a MIME type.
pub fn extension_for(content_type: &str) -> (ext: &'static str)
    ensures
        ext@ == extension_text(content_type@),
{
    if str_eq(content_type, "image/gif") {
        ".gif"
    } else if str_eq(content_type, "image/png") {
        ".png"
    } else if str_eq(content_type, "image/jpeg") {
        ".jpg"
    } else if str_eq(content_type, "image/webp") {
        ".webp"
    } else if str_eq(content_type, "image/svg+xml") {
        ".svg"
    } else if str_eq(content_type, "video/webm") {
        ".webm"
    } else if str_eq(content_type, "video/mp4") {
        ".mp4"
    } else if str_eq(content_type, "image/avif") {
        ".avif"
    } else {
        ""
    }
}

/// The host named in public URLs when the request carries none.
pub open spec fn host_text(host: Option<Seq<char>>) -> Seq<char> {
    match host {
        Some(h) => h,
        None => "images.zbee.codes"@,
    }
}

/// The request's host, or the proxy's own domain when it has none.
pub fn host_or_default(host: Option<&str>) -> (h: String)
    ensures
        h@ == host_text(opt_str_view(host)),
{
    match host {
        Some(h) => String::from_str(h),
        None => String::from_str("images.zbee.codes"),
    }
}

/// The public URL of a stored image: `https://{host}/{name}{ext}`.
pub open spec fn public_url_text(host: Seq<char>, name: Seq<char>, ext: Seq<char>) -> Seq<char> {
    "https://"@ + host + "/"@ + name + ext
}

/// Formats the public URL of a stored image.
pub fn public_url(host: &str, name: &str, ext: &str) -> (url: String)
    ensures
        url@ == public_url_text(host@, name@, ext@),
{
    let url = String::from_str("https://").concat(host).concat("/").concat(name).concat(ext);
    assert(url@ =~= public_url_text(host@, name@, ext@));
    url
}

/// The character sequences of a list of names.
pub open spec fn views(names: Seq<String>) -> Seq<Seq<char>> {
    names.map_values(|n: String| n@)
}

/// Names in ascending [`lex_le`] order (the order of `Ord for String`).
pub open spec fn names_sorted(names: Seq<Seq<char>>) -> bool {
    forall|i: int, j: int| 0 <= i < j < names.len() ==> lex_le(#[trigger] names[i], #[trigger] names[j])
}

/// Inserting one element adds it to the multiset of a sequence.
pub proof fn lemma_insert_to_multiset<A>(s: Seq<A>, pos: int, a: A)
    requires
        0 <= pos <= s.len(),
    ensures
        s.insert(pos, a).to_multiset() =~= s.to_multiset().insert(a),
{
    broadcast use vstd::seq_lib::group_to_multiset_ensures;

    let left = s.subrange(0, pos);
    let right = s.subrange(pos, s.len() as int);
    assert(s =~= left + right);
    assert(s.insert(pos, a) =~= left.push(a) + right);
    vstd::seq_lib::lemma_multiset_commutative(left.push(a), right);
    vstd::seq_lib::lemma_multiset_commutative(left, right);
}

/// Sorts names in ascending order, as `Vec::<String>::sort` does.
pub fn sort_names(names: &Vec<String>) -> (sorted: Vec<String>)
    ensures
        names_sorted(views(sorted@)),
        views(sorted@).to_multiset() =~= views(names@).to_multiset(),
{
    broadcast use vstd::seq_lib::group_to_multiset_ensures;

    let mut out: Vec<String> = Vec::new();
    let mut keys: Vec<Vec<char>> = Vec::new();
    let mut i: usize = 0;
    assert(views(names@).take(0) =~= Seq::<Seq<char>>::empty());
    while i < names.len()
        invariant
            i <= names@.len(),
            keys@.len() == out@.len(),
            forall|k: int| 0 <= k < keys@.len() ==> #[trigger] keys@[k]@ == out@[k]@,
            names_sorted(views(out@)),
            views(out@).to_multiset() =~= views(names@).take(i as int).to_multiset(),
        decreases names.len() - i,
    {
        let name = names[i].clone();
        let key = chars_of(name.as_str());
        let ghost old_views = views(out@);
        let mut pos: usize = 0;
        while pos < keys.len() && lex_le_chars(&keys[pos], &key)
            invariant
                pos <= keys@.len(),
                keys@.len() == out@.len(),
                old_views == views(out@),
                forall|k: int| 0 <= k < keys@.len() ==> #[trigger] keys@[k]@ == out@[k]@,
                forall|k: int| 0 <= k < pos ==> lex_le(#[trigger] old_views[k], key@),
            decreases keys.len() - pos,
        {
            pos = pos + 1;
        }
        proof {
            if pos < old_views.len() {
                lemma_lex_le_total(old_views[pos as int], key@);
                assert forall|k: int| pos <= k < old_views.len() implies lex_le(
                    key@,
                    #[trigger] old_views[k],
                ) by {
                    if k > pos {
                        assert(lex_le(old_views[pos as int], old_views[k]));
                        lemma_lex_le_transitive(key@, old_views[pos as int], old_views[k]);
                    }
                }
            }
        }
        out.insert(pos, name);
        keys.insert(pos, key);
        proof {
            let nv = views(out@);
            assert(nv =~= old_views.insert(pos as int, key@));
            assert forall|a: int, b: int| 0 <= a < b < nv.len() implies lex_le(
                #[trigger] nv[a],
                #[trigger] nv[b],
            ) by {
                if b < pos {
                } else if a < pos && b == pos {
                } else if a < pos {
                    assert(nv[b] == old_views[b - 1]);
                    lemma_lex_le_transitive(old_views[a], key@, old_views[b - 1]);
                } else if a == pos {
                    assert(nv[b] == old_views[b - 1]);
                } else {
                    assert(nv[a] == old_views[a - 1]);
                    assert(nv[b] == old_views[b - 1]);
                }
            }
            lemma_insert_to_multiset(old_views, pos as int, key@);
            assert(key@ == names@[i as int]@);
            assert(views(names@).take(i + 1) =~= views(names@).take(i as int).push(names@[i as int]@));
            views(names@).take(i as int).to_multiset_ensures();
            assert(nv.to_multiset() =~= old_views.to_multiset().insert(key@));
        }
        i = i + 1;
    }
    assert(views(names@).take(names@.len() as int) =~= views(names@));
    out
}

/// Every frequency the dashboard accepts has a word for a label.
pub proof fn lemma_accepted_frequency_has_word_label(value: Option<Seq<char>>)
    ensures
        ({
            let label = frequency_text(frequency_for(value));
            ||| label == "never"@
            ||| label == "hourly"@
            ||| label == "4 hours"@
            ||| label == "daily"@
            ||| label == "weekly"@
            ||| label == "monthly"@
        }),
{
}

/// No character of `s` is a dot.
pub open spec fn dot_free(s: Seq<char>) -> bool {
    forall|i: int| 0 <= i < s.len() ==> s[i] != '.'
}

/// A media extension: a dot followed by dot-free characters.
pub open spec fn extension_shaped(e: Seq<char>) -> bool {
    e.len() > 0 && e[0] == '.' && dot_free(e.drop_first())
}

/// A dot-led extension ends `name + ext` (with `name` dot-free and `ext`
/// empty or an extension) only if it is `ext` itself.
proof fn lemma_only_own_extension_matches(name: Seq<char>, ext: Seq<char>, f: Seq<char>)
    requires
        dot_free(name),
        ext.len() == 0 || extension_shaped(ext),
        extension_shaped(f),
        f.is_suffix_of(name + ext),
    ensures
        f == ext,
{
    let s = name + ext;
    let p = s.len() - f.len();
    assert(s.subrange(p, s.len() as int)[0] == f[0]);
    assert(s[p] == '.');
    if p < name.len() {
        assert(s[p] == name[p]);
    } else if p > name.len() {
        assert(s[p] == ext.drop_first()[p - name.len() - 1]);
    }
    assert(p == name.len());
    assert(f =~= ext);
}

/// Stripping against a list of extensions from `name + ext`.
proof fn lemma_strip_list(name: Seq<char>, ext: Seq<char>, exts: Seq<Seq<char>>)
    requires
        dot_free(name),
        ext.len() == 0 || extension_shaped(ext),
        forall|i: int| 0 <= i < exts.len() ==> extension_shaped(#[trigger] exts[i]),
        ext.len() == 0 || exts.contains(ext),
    ensures
        strip_first_suffix(name + ext, exts) == name,
    decreases exts.len(),
{
    if exts.len() == 0 {
        assert(name + ext =~= name);
    } else {
        let f = exts[0];
        if f.is_suffix_of(name + ext) {
            lemma_only_own_extension_matches(name, ext, f);
            assert((name + ext).subrange(0, (name + ext).len() - f.len()) =~= name);
        } else {
            let rest = exts.drop_first();
            assert forall|i: int| 0 <= i < rest.len() implies extension_shaped(#[trigger] rest[i]) by {
                assert(rest[i] == exts[i + 1]);
            }
            if ext.len() > 0 {
                let k = choose|k: int| 0 <= k < exts.len() && exts[k] == ext;
                if k == 0 {
                    assert(ext.is_suffix_of(name + ext)) by {
                        assert((name + ext).subrange(name.len() as int, (name + ext).len() as int) =~= ext);
                    }
                } else {
                    assert(rest[k - 1] == ext);
                }
            }
            lemma_strip_list(name, ext, rest);
        }
    }
}

/// A valid name followed by the extension of any MIME type, as public URLs
/// and dashboard tiles write it, resolves back to that name.
pub proof fn lemma_public_name_resolves(name: Seq<char>, content_type: Seq<char>)
    requires
        valid_name_spec(name),
    ensures
        stripped_name(name + extension_text(content_type)) == name,
{
    reveal_strlit(".gif");
    reveal_strlit(".png");
    reveal_strlit(".jpg");
    reveal_strlit(".jpeg");
    reveal_strlit(".webp");
    reveal_strlit(".svg");
    reveal_strlit(".webm");
    reveal_strlit(".mp4");
    reveal_strlit(".avif");
    reveal_strlit("");
    let exts = known_extensions();
    assert forall|i: int| 0 <= i < name.len() implies name[i] != '.' by {
        assert(name_char(name[i]));
    }
    assert forall|i: int| 0 <= i < exts.len() implies extension_shaped(#[trigger] exts[i]) by {
        assert(exts[i].drop_first().len() + 1 == exts[i].len());
    }
    let ext = extension_text(content_type);
    assert(ext.len() == 0 || exts.contains(ext)) by {
        if ext.len() > 0 {
            if ext == ".gif"@ {
                assert(exts[0] == ext);
            } else if ext == ".png"@ {
                assert(exts[1] == ext);
            } else if ext == ".jpg"@ {
                assert(exts[2] == ext);
            } else if ext == ".webp"@ {
                assert(exts[4] == ext);
            } else if ext == ".svg"@ {
                assert(exts[5] == ext);
            } else if ext == ".webm"@ {
                assert(exts[6] == ext);
            } else if ext == ".mp4"@ {
                assert(exts[7] == ext);
            } else {
                assert(exts[8] == ext);
            }
        }
    }
    assert(ext.len() == 0 || extension_shaped(ext));
    lemma_strip_list(name, ext, exts);
}

/// Two ascending orders of the same names are the same list: the contract
/// of [`sort_names`] fixes its result.
pub proof fn lemma_sorted_permutation_unique(a: Seq<Seq<char>>, b: Seq<Seq<char>>)
    requires
        names_sorted(a),
        names_sorted(b),
        a.to_multiset() == b.to_multiset(),
    ensures
        a == b,
    decreases a.len(),
{
    broadcast use vstd::seq_lib::group_to_multiset_ensures;

    a.to_multiset_ensures();
    b.to_multiset_ensures();
    assert(a.len() == b.len());
    if a.len() > 0 {
        assert(a.to_multiset().count(a[0]) > 0);
        assert(b.to_multiset().count(a[0]) > 0);
        assert(b.contains(a[0]));
        let j = choose|j: int| 0 <= j < b.len() && b[j] == a[0];
        assert(b.to_multiset().count(b[0]) > 0);
        assert(a.contains(b[0]));
        let k = choose|k: int| 0 <= k < a.len() && a[k] == b[0];
        if j > 0 {
            assert(lex_le(b[0], b[j]));
        }
        if k > 0 {
            assert(lex_le(a[0], a[k]));
        }
        if j == 0 || k == 0 {
        } else {
            lemma_lex_le_antisymmetric(a[0], b[0]);
        }
        assert(a[0] == b[0]);
        assert(a.remove(0) =~= a.drop_first());
        assert(b.remove(0) =~= b.drop_first());
        assert(a.drop_first().to_multiset() =~= b.drop_first().to_multiset());
        lemma_sorted_permutation_unique(a.drop_first(), b.drop_first());
        assert(a =~= b) by {
            assert forall|i: int| 0 <= i < a.len() implies a[i] == b[i] by {
                if i > 0 {
                    assert(a[i] == a.drop_first()[i - 1]);
                    assert(b[i] == b.drop_first()[i - 1]);
                }
            }
        }
    } else {
        assert(a =~= b);
    }
}


/// ASCII code points allowed in image names: digits, upper- and lower-case
/// letters, hyphen and underscore.
pub open spec fn ascii_name_code(n: u32) -> bool {
    ||| 0x30 <= n <= 0x39
    ||| 0x41 <= n <= 0x5a
    ||| 0x61 <= n <= 0x7a
    ||| n == 0x2d
    ||| n == 0x5f
}

/// A name is valid exactly when it has at most 64 characters, is not
/// `refresh`, and every character is an ASCII letter, digit, `-` or `_`.
pub proof fn lemma_valid_name_characterized(name: Seq<char>)
    ensures
        valid_name_spec(name) <==> (name.len() <= 64 && name != "refresh"@ && forall|i: int|
            0 <= i < name.len() ==> ascii_name_code(#[trigger] name[i] as u32)),
{
    assert forall|i: int| 0 <= i < name.len() implies (name_char(name[i]) <==> ascii_name_code(
        name[i] as u32,
    )) by {
        lemma_name_char_code(name[i]);
    }
    if valid_name_spec(name) {
        assert forall|i: int| 0 <= i < name.len() implies ascii_name_code(#[trigger] name[i] as u32) by {
            assert(name_char(name[i]));
        }
    }
    if name.len() <= 64 && name != "refresh"@ && forall|i: int|
        0 <= i < name.len() ==> ascii_name_code(#[trigger] name[i] as u32) {
        assert forall|i: int| 0 <= i < name.len() implies #[trigger] name_char(name[i]) by {
            assert(ascii_name_code(name[i] as u32));
        }
    }
}

proof fn lemma_name_char_code(c: char)
    ensures
        name_char(c) <==> ascii_name_code(c as u32),
{
}

/// The first pair named `key` decides the value: any later pair with the same
/// name is ignored, and earlier pairs with other names are skipped.
pub proof fn lemma_first_value_is_first_match(pairs: Seq<(Seq<char>, Seq<char>)>, key: Seq<char>, i: int)
    requires
        0 <= i < pairs.len(),
        pairs[i].0 == key,
        forall|j: int| 0 <= j < i ==> pairs[j].0 != key,
    ensures
        first_value(pairs, key) == Some(pairs[i].1),
    decreases i,
{
    if i > 0 {
        let rest = pairs.drop_first();
        assert forall|j: int| 0 <= j < i - 1 implies rest[j].0 != key by {
            assert(rest[j] == pairs[j + 1]);
        }
        lemma_first_value_is_first_match(rest, key, i - 1);
    }
}

/// Without any pair named `key`, there is no value.
pub proof fn lemma_first_value_absent(pairs: Seq<(Seq<char>, Seq<char>)>, key: Seq<char>)
    requires
        forall|j: int| 0 <= j < pairs.len() ==> pairs[j].0 != key,
    ensures
        first_value(pairs, key) is None,
    decreases pairs.len(),
{
    if pairs.len() > 0 {
        let rest = pairs.drop_first();
        assert forall|j: int| 0 <= j < rest.len() implies rest[j].0 != key by {
            assert(rest[j] == pairs[j + 1]);
        }
        lemma_first_value_absent(rest, key);
    }
}

/// A request is authorised exactly when the decoded value of its query's
/// `key` parameter (the one `query_param` returns) equals the secret.
pub proof fn lemma_authorized_is_key_param(query: Option<Seq<char>>, expected: Seq<char>)
    ensures
        authorized_spec(query, expected) <==> query_value(query, "key"@) == Some(expected),
{
}

/// A query whose first `key` pair carries the secret is authorised, wherever
/// that pair stands among the others.
pub proof fn lemma_authorized_by_first_key_pair(query: Seq<char>, expected: Seq<char>, i: int)
    requires
        0 <= i < form_pairs(query).len(),
        form_pairs(query)[i] == ("key"@, expected),
        forall|j: int| 0 <= j < i ==> (#[trigger] form_pairs(query)[j]).0 != "key"@,
    ensures
        authorized_spec(Some(query), expected),
{
    lemma_first_value_is_first_match(form_pairs(query), "key"@, i);
}

/// A query without any `key` pair is refused.
pub proof fn lemma_refused_without_key_pair(query: Seq<char>, expected: Seq<char>)
    requires
        forall|j: int| 0 <= j < form_pairs(query).len() ==> (#[trigger] form_pairs(query)[j]).0 != "key"@,
    ensures
        !authorized_spec(Some(query), expected),
{
    lemma_first_value_absent(form_pairs(query), "key"@);
}

} // verus!
