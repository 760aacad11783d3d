//! The manifest text format: serialization to text and parsing back.
//!
//! A manifest is rendered as a record count, then one line per asset:
//!
//! ```text
//! manifest := count ';' record*
//! record   := string tag string size ';' offset ';' '\n'
//! string   := length ':' characters
//! ```
//!
//! where `tag` is one character naming the category variant and every
//! number is decimal. Strings are length-prefixed, so names and format tags
//! may contain any characters. Asset bytes are never part of the text: only
//! name, category, size and offset round-trip.

use vstd::prelude::*;
use vstd::string::StrSliceExecFns;
use vstd::string::StringExecFns;
use crate::asset::Asset;
use crate::asset::AssetType;
use crate::asset::AssetTypeView;
use crate::asset::AssetView;
use crate::asset::views_of;
use crate::manifest::AssetManifest;
use crate::numfmt::dec_digits;
use crate::numfmt::parse_nat;
use crate::numfmt::parse_nat_exec;
use crate::numfmt::push_nat;

verus! {

/// A length-prefixed string: the character count, a colon, the characters.
pub open spec fn enc_str(t: Seq<char>) -> Seq<char> {
    dec_digits(t.len()) + seq![':'] + t
}

/// The one-character tag of a category variant.
pub open spec fn type_tag(t: AssetTypeView) -> char {
    match t {
        AssetTypeView::Image(_) => 'i',
        AssetTypeView::Audio(_) => 'a',
        AssetTypeView::Font(_) => 'f',
        AssetTypeView::Shader(_) => 'h',
        AssetTypeView::Model(_) => 'm',
        AssetTypeView::Script(_) => 's',
        AssetTypeView::Other(_) => 'o',
    }
}

/// The category for a tag character and a format string, if the tag is one
/// of the seven variant tags.
pub open spec fn mk_type(tag: char, payload: Seq<char>) -> Option<AssetTypeView> {
    if tag == 'i' {
        Some(AssetTypeView::Image(payload))
    } else if tag == 'a' {
        Some(AssetTypeView::Audio(payload))
    } else if tag == 'f' {
        Some(AssetTypeView::Font(payload))
    } else if tag == 'h' {
        Some(AssetTypeView::Shader(payload))
    } else if tag == 'm' {
        Some(AssetTypeView::Model(payload))
    } else if tag == 's' {
        Some(AssetTypeView::Script(payload))
    } else if tag == 'o' {
        Some(AssetTypeView::Other(payload))
    } else {
        None
    }
}

/// One record: name, category tag and format string, size, offset. The
/// asset's bytes are not included.
pub open spec fn enc_record(a: AssetView) -> Seq<char> {
    enc_str(a.name) + seq![type_tag(a.asset_type)] + enc_str(a.asset_type.tag()) + dec_digits(
        a.size,
    ) + seq![';'] + dec_digits(a.location) + seq![';'] + seq!['\n']
}

/// The records of assets `i` onward, back to back.
pub open spec fn enc_records(v: Seq<AssetView>, i: int) -> Seq<char>
    decreases v.len() - i,
{
    if i < 0 || i >= v.len() {
        Seq::empty()
    } else {
        enc_record(v[i]) + enc_records(v, i + 1)
    }
}

/// The manifest text for a sequence of asset views.
pub open spec fn encode_manifest(v: Seq<AssetView>) -> Seq<char> {
    dec_digits(v.len()) + seq![';'] + enc_records(v, 0)
}

/// Parse a length-prefixed string at position `i`.
pub open spec fn parse_str(s: Seq<char>, i: int) -> Option<(Seq<char>, int)> {
    match parse_nat(s, i) {
        None => None,
        Some((len, j)) => if j < s.len() && s[j] == ':' && j + 1 + len <= s.len() {
            Some((s.subrange(j + 1, j + 1 + len), j + 1 + len))
        } else {
            None
        },
    }
}

/// Parse one record at position `i`: the asset view it describes (bytes
/// absent) and the position after the record.
pub open spec fn parse_record(s: Seq<char>, i: int) -> Option<(AssetView, int)> {
    match parse_str(s, i) {
        None => None,
        Some((name, j)) => if j < s.len() {
            match parse_str(s, j + 1) {
                None => None,
                Some((payload, k)) => match mk_type(s[j], payload) {
                    None => None,
                    Some(t) => match parse_nat(s, k) {
                        None => None,
                        Some((size, m)) => if m < s.len() && s[m] == ';' {
                            match parse_nat(s, m + 1) {
                                None => None,
                                Some((loc, p)) => if p + 1 < s.len() && s[p] == ';' && s[p + 1]
                                    == '\n' {
                                    Some(
                                        (
                                            AssetView {
                                                name: name,
                                                asset_type: t,
                                                location: loc,
                                                size: size,
                                                data: None,
                                            },
                                            p + 2,
                                        ),
                                    )
                                } else {
                                    None
                                },
                            }
                        } else {
                            None
                        },
                    },
                },
            }
        } else {
            None
        },
    }
}

/// Parse `count` records at position `i`.
pub open spec fn parse_records(s: Seq<char>, i: int, count: nat) -> Option<(Seq<AssetView>, int)>
    decreases count,
{
    if count == 0 {
        Some((Seq::empty(), i))
    } else {
        match parse_record(s, i) {
            None => None,
            Some((a, j)) => match parse_records(s, j, (count - 1) as nat) {
                None => None,
                Some((rest, k)) => Some((seq![a] + rest, k)),
            },
        }
    }
}

/// Parse a whole manifest text: the record count, the records, and nothing
/// after them.
pub open spec fn spec_parse_manifest(s: Seq<char>) -> Option<Seq<AssetView>> {
    match parse_nat(s, 0) {
        None => None,
        Some((count, j)) => if j < s.len() && s[j] == ';' {
            match parse_records(s, j + 1, count) {
                None => None,
                Some((v, k)) => if k == s.len() {
                    Some(v)
                } else {
                    None
                },
            }
        } else {
            None
        },
    }
}

fn push_str_enc(out: &mut String, t: &str)
    ensures
        final(out)@ == old(out)@ + enc_str(t@),
{
    let len = t.unicode_len();
    push_nat(out, len);
    out.append(":");
    out.append(t);
    proof {
        reveal_strlit(":");
        assert(":"@ =~= seq![':']);
        assert(final(out)@ =~= old(out)@ + enc_str(t@));
    }
}

fn type_tag_str(t: &AssetType) -> (r: &'static str)
    ensures
        r@ == seq![type_tag(t@)],
{
    match t {
        AssetType::Image(_) => {
            proof {
                reveal_strlit("i");
            }
            assert("i"@ =~= seq!['i']);
            "i"
        },
        AssetType::Audio(_) => {
            proof {
                reveal_strlit("a");
            }
            assert("a"@ =~= seq!['a']);
            "a"
        },
        AssetType::Font(_) => {
            proof {
                reveal_strlit("f");
            }
            assert("f"@ =~= seq!['f']);
            "f"
        },
        AssetType::Shader(_) => {
            proof {
                reveal_strlit("h");
            }
            assert("h"@ =~= seq!['h']);
            "h"
        },
        AssetType::Model(_) => {
            proof {
                reveal_strlit("m");
            }
            assert("m"@ =~= seq!['m']);
            "m"
        },
        AssetType::Script(_) => {
            proof {
                reveal_strlit("s");
            }
            assert("s"@ =~= seq!['s']);
            "s"
        },
        AssetType::Other(_) => {
            proof {
                reveal_strlit("o");
            }
            assert("o"@ =~= seq!['o']);
            "o"
        },
    }
}

fn push_record(out: &mut String, a: &Asset)
    ensures
        final(out)@ == old(out)@ + enc_record(a@),
{
    push_str_enc(out, a.get_name());
    out.append(type_tag_str(a.get_type()));
    push_str_enc(out, a.get_type().tag());
    push_nat(out, a.get_size());
    out.append(";");
    push_nat(out, a.get_chunk_location());
    out.append(";");
    out.append("\n");
    proof {
        reveal_strlit(";");
        reveal_strlit("\n");
        assert(";"@ =~= seq![';']);
        assert("\n"@ =~= seq!['\n']);
        assert(final(out)@ =~= old(out)@ + enc_record(a@));
    }
}

/// Whether a record's strings and numbers are small enough to parse back
/// (string lengths and numbers no greater than `usize::MAX`). Every record
/// built from machine values satisfies this.
pub open spec fn fits_usize(a: AssetView) -> bool {
    &&& a.name.len() <= usize::MAX as nat
    &&& a.asset_type.tag().len() <= usize::MAX as nat
    &&& a.size <= usize::MAX as nat
    &&& a.location <= usize::MAX as nat
}

/// An asset view with its bytes absent, as the text format carries it.
pub open spec fn strip(a: AssetView) -> AssetView {
    AssetView { data: None, ..a }
}

/// A sequence of asset views with their bytes absent.
pub open spec fn strip_views(v: Seq<AssetView>) -> Seq<AssetView> {
    v.map_values(|a: AssetView| strip(a))
}

proof fn lemma_subrange_at(s: Seq<char>, i: int, w: Seq<char>, lo: int, hi: int)
    requires
        0 <= i,
        i + w.len() <= s.len(),
        s.subrange(i, i + w.len() as int) == w,
        0 <= lo <= hi <= w.len(),
    ensures
        s.subrange(i + lo, i + hi) == w.subrange(lo, hi),
{
    assert forall|m: int| 0 <= m < hi - lo implies s.subrange(i + lo, i + hi)[m] == w.subrange(
        lo,
        hi,
    )[m] by {
        assert(s.subrange(i, i + w.len() as int)[lo + m] == w[lo + m]);
    }
    assert(s.subrange(i + lo, i + hi) =~= w.subrange(lo, hi));
}

proof fn lemma_char_at(s: Seq<char>, i: int, w: Seq<char>, at: int)
    requires
        0 <= i,
        i + w.len() <= s.len(),
        s.subrange(i, i + w.len() as int) == w,
        0 <= at < w.len(),
    ensures
        s[i + at] == w[at],
{
    assert(s.subrange(i, i + w.len() as int)[at] == w[at]);
}

proof fn lemma_parse_enc_str(s: Seq<char>, i: int, t: Seq<char>)
    requires
        0 <= i,
        t.len() <= usize::MAX as nat,
        i + enc_str(t).len() <= s.len(),
        s.subrange(i, i + enc_str(t).len() as int) == enc_str(t),
    ensures
        parse_str(s, i) == Some((t, i + enc_str(t).len() as int)),
{
    let e = enc_str(t);
    let dd = dec_digits(t.len());
    let ll = dd.len() as int;
    let el = e.len() as int;
    assert(el == ll + 1 + t.len());
    lemma_subrange_at(s, i, e, 0, ll);
    assert(e.subrange(0, ll) =~= dd);
    lemma_char_at(s, i, e, ll);
    assert(e[ll] == ':');
    crate::numfmt::lemma_parse_printed_nat(s, i, t.len());
    let j = i + ll;
    assert(parse_nat(s, i) == Some((t.len(), j)));
    assert(j + 1 + t.len() <= s.len());
    lemma_subrange_at(s, i, e, ll + 1, el);
    assert(e.subrange(ll + 1, el) =~= t);
    assert(s.subrange(j + 1, j + 1 + t.len() as int) == t);
}

proof fn lemma_parse_enc_record(s: Seq<char>, i: int, a: AssetView)
    requires
        0 <= i,
        fits_usize(a),
        i + enc_record(a).len() <= s.len(),
        s.subrange(i, i + enc_record(a).len() as int) == enc_record(a),
    ensures
        parse_record(s, i) == Some((strip(a), i + enc_record(a).len() as int)),
{
    let e1 = enc_str(a.name);
    let e2 = enc_str(a.asset_type.tag());
    let d1 = dec_digits(a.size);
    let d2 = dec_digits(a.location);
    let whole = enc_record(a);
    let wl = whole.len() as int;
    let o1 = e1.len() as int;
    let o2 = o1 + 1;
    let o3 = o2 + e2.len() as int;
    let o4 = o3 + d1.len() as int;
    let o5 = o4 + 1;
    let o6 = o5 + d2.len() as int;
    assert(wl == o6 + 2);
    assert(whole.subrange(0, o1) =~= e1);
    assert(whole[o1] == type_tag(a.asset_type));
    assert(whole.subrange(o2, o3) =~= e2);
    assert(whole.subrange(o3, o4) =~= d1);
    assert(whole[o4] == ';');
    assert(whole.subrange(o5, o6) =~= d2);
    assert(whole[o6] == ';');
    assert(whole[o6 + 1] == '\n');
    let i1 = i + o1;
    let i2 = i + o2;
    let i3 = i + o3;
    let i4 = i + o4;
    let i5 = i + o5;
    let i6 = i + o6;
    lemma_subrange_at(s, i, whole, 0, o1);
    assert(s.subrange(i, i + o1) == e1);
    lemma_parse_enc_str(s, i, a.name);
    lemma_char_at(s, i, whole, o1);
    assert(s[i1] == type_tag(a.asset_type));
    lemma_subrange_at(s, i, whole, o2, o3);
    assert(s.subrange(i2, i2 + e2.len() as int) == e2);
    lemma_parse_enc_str(s, i2, a.asset_type.tag());
    assert(mk_type(type_tag(a.asset_type), a.asset_type.tag()) == Some(a.asset_type));
    lemma_subrange_at(s, i, whole, o3, o4);
    assert(s.subrange(i3, i3 + d1.len() as int) == d1);
    lemma_char_at(s, i, whole, o4);
    assert(s[i4] == ';');
    crate::numfmt::lemma_parse_printed_nat(s, i3, a.size);
    lemma_subrange_at(s, i, whole, o5, o6);
    assert(s.subrange(i5, i5 + d2.len() as int) == d2);
    lemma_char_at(s, i, whole, o6);
    assert(s[i6] == ';');
    crate::numfmt::lemma_parse_printed_nat(s, i5, a.location);
    lemma_char_at(s, i, whole, o6 + 1);
    assert(s[i6 + 1] == '\n');
    assert(i6 + 2 == i + wl);
}

proof fn lemma_parse_enc_records(s: Seq<char>, v: Seq<AssetView>, i: int, k: int)
    requires
        0 <= k <= v.len(),
        forall|m: int| 0 <= m < v.len() ==> fits_usize(#[trigger] v[m]),
        0 <= i,
        i + enc_records(v, k).len() <= s.len(),
        s.subrange(i, i + enc_records(v, k).len() as int) == enc_records(v, k),
    ensures
        parse_records(s, i, (v.len() - k) as nat) == Some(
            (strip_views(v).skip(k), i + enc_records(v, k).len() as int),
        ),
    decreases v.len() - k,
{
    if k == v.len() {
        assert(strip_views(v).skip(k) =~= Seq::<AssetView>::empty());
    } else {
        let whole = enc_records(v, k);
        let er = enc_record(v[k]);
        let rest = enc_records(v, k + 1);
        let el = er.len() as int;
        let rl = rest.len() as int;
        assert(whole == er + rest);
        assert(whole.subrange(0, el) =~= er);
        assert(whole.subrange(el, el + rl) =~= rest);
        lemma_subrange_at(s, i, whole, 0, el);
        assert(s.subrange(i, i + el) == er);
        lemma_parse_enc_record(s, i, v[k]);
        lemma_subrange_at(s, i, whole, el, el + rl);
        assert(s.subrange(i + el, i + el + rl) == rest);
        lemma_parse_enc_records(s, v, i + el, k + 1);
        assert((v.len() - k) as nat != 0);
        assert(((v.len() - k) as nat - 1) as nat == (v.len() - (k + 1)) as nat);
        assert(seq![strip(v[k])] + strip_views(v).skip(k + 1) =~= strip_views(v).skip(k));
    }
}

/// Law: round trip. For any sequence of asset records whose strings and
/// numbers fit the machine, parsing the rendered manifest text succeeds and
/// reproduces every record's name, category, size and offset, in the same
/// order, with the bytes absent.
pub proof fn lemma_text_round_trip(v: Seq<AssetView>)
    requires
        v.len() <= usize::MAX as nat,
        forall|m: int| 0 <= m < v.len() ==> fits_usize(#[trigger] v[m]),
    ensures
        spec_parse_manifest(encode_manifest(v)) == Some(strip_views(v)),
{
    let s = encode_manifest(v);
    let dd = dec_digits(v.len());
    let ll = dd.len() as int;
    assert(s.subrange(0, ll) =~= dd);
    assert(s[ll] == ';');
    crate::numfmt::lemma_parse_printed_nat(s, 0, v.len());
    assert(s.subrange(ll + 1, ll + 1 + enc_records(v, 0).len() as int) =~= enc_records(v, 0));
    lemma_parse_enc_records(s, v, ll + 1, 0);
    assert(strip_views(v).skip(0) =~= strip_views(v));
    assert(ll + 1 + enc_records(v, 0).len() == s.len());
}

fn parse_str_exec(s: &str, pos: usize) -> (r: Option<(String, usize)>)
    ensures
        match parse_str(s@, pos as int) {
            Some(p) => r matches Some(q) && q.0@ == p.0 && q.1 as int == p.1,
            None => r is None,
        },
{
    let slen = s.unicode_len();
    match parse_nat_exec(s, pos) {
        None => None,
        Some((len, j)) => {
            if j < slen && s.get_char(j) == ':' {
                if len <= slen - (j + 1) {
                    let t = s.substring_char(j + 1, j + 1 + len);
                    Some((String::from_str(t), j + 1 + len))
                } else {
                    None
                }
            } else {
                None
            }
        },
    }
}

fn mk_type_exec(tag: char, payload: String) -> (r: Option<AssetType>)
    ensures
        match mk_type(tag, payload@) {
            Some(t) => r matches Some(rt) && rt@ == t,
            None => r is None,
        },
{
    if tag == 'i' {
        Some(AssetType::Image(payload))
    } else if tag == 'a' {
        Some(AssetType::Audio(payload))
    } else if tag == 'f' {
        Some(AssetType::Font(payload))
    } else if tag == 'h' {
        Some(AssetType::Shader(payload))
    } else if tag == 'm' {
        Some(AssetType::Model(payload))
    } else if tag == 's' {
        Some(AssetType::Script(payload))
    } else if tag == 'o' {
        Some(AssetType::Other(payload))
    } else {
        None
    }
}

fn parse_record_exec(s: &str, pos: usize) -> (r: Option<(Asset, usize)>)
    ensures
        match parse_record(s@, pos as int) {
            Some(p) => r matches Some(q) && q.0@ == p.0 && q.1 as int == p.1,
            None => r is None,
        },
{
    let slen = s.unicode_len();
    let (name, j) = match parse_str_exec(s, pos) {
        None => {
            return None;
        },
        Some(p) => p,
    };
    if j >= slen {
        return None;
    }
    let tag = s.get_char(j);
    let (payload, k) = match parse_str_exec(s, j + 1) {
        None => {
            return None;
        },
        Some(p) => p,
    };
    let asset_type = match mk_type_exec(tag, payload) {
        None => {
            return None;
        },
        Some(t) => t,
    };
    let (size, m) = match parse_nat_exec(s, k) {
        None => {
            return None;
        },
        Some(p) => p,
    };
    if m >= slen || s.get_char(m) != ';' {
        return None;
    }
    let (loc, p) = match parse_nat_exec(s, m + 1) {
        None => {
            return None;
        },
        Some(q) => q,
    };
    if p >= slen || p + 1 >= slen {
        return None;
    }
    if s.get_char(p) != ';' || s.get_char(p + 1) != '\n' {
        return None;
    }
    Some((Asset::from_metadata(name, asset_type, size, loc), p + 2))
}

impl AssetManifest {
    /// Render the manifest as text: every asset's name, category, size and
    /// offset, in order; the assets' bytes are not written.
    pub fn to_text(&self) -> (r: String)
        ensures
            r@ == encode_manifest(self@),
    {
        let ghost v = self@;
        let assets = self.get_assets();
        let mut out = String::new();
        push_nat(&mut out, assets.len());
        out.append(";");
        proof {
            reveal_strlit(";");
            assert(";"@ =~= seq![';']);
        }
        let mut idx: usize = 0;
        while idx < assets.len()
            invariant
                v == views_of(assets@),
                assets@.len() == v.len(),
                0 <= idx <= v.len(),
                out@ + enc_records(v, idx as int) == encode_manifest(v),
            decreases v.len() - idx,
        {
            assert(views_of(assets@)[idx as int] == v[idx as int]);
            let ghost prev = out@;
            push_record(&mut out, vstd::std_specs::vec::vec_index(assets, idx));
            proof {
                assert((prev + enc_record(v[idx as int])) + enc_records(v, idx as int + 1)
                    =~= prev + (enc_record(v[idx as int]) + enc_records(v, idx as int + 1)));
            }
            idx = idx + 1;
        }
        proof {
            assert(out@ =~= out@ + enc_records(v, v.len() as int));
        }
        out
    }

    /// Parse a manifest from text, exactly as [`spec_parse_manifest`] says:
    /// the record count, that many records, and nothing after them. Returns
    /// `None` exactly on text that is not a well-formed manifest (or whose
    /// numbers exceed `usize`). Every parsed asset has its bytes absent.
    pub fn from_text(text: &str) -> (r: Option<AssetManifest>)
        ensures
            match spec_parse_manifest(text@) {
                Some(v) => r matches Some(m) && m@ == v,
                None => r is None,
            },
    {
        let slen = text.unicode_len();
        let (count, start) = match parse_nat_exec(text, 0) {
            None => {
                return None;
            },
            Some(p) => p,
        };
        if start >= slen || text.get_char(start) != ';' {
            return None;
        }
        let mut assets: Vec<Asset> = Vec::new();
        let mut pos: usize = start + 1;
        let mut i: usize = 0;
        proof {
            assert(views_of(assets@) =~= Seq::<AssetView>::empty());
        }
        while i < count
            invariant
                slen == text@.len(),
                0 <= i <= count,
                parse_nat(text@, 0) == Some((count as nat, start as int)),
                (start as int) < text@.len(),
                text@[start as int] == ';',
                match parse_records(text@, pos as int, (count - i) as nat) {
                    Some(p) => parse_records(text@, start as int + 1, count as nat) == Some(
                        (views_of(assets@) + p.0, p.1),
                    ),
                    None => parse_records(text@, start as int + 1, count as nat) is None,
                },
            decreases count - i,
        {
            let (a, np) = match parse_record_exec(text, pos) {
                None => {
                    proof {
                        assert(parse_records(text@, pos as int, (count - i) as nat) is None);
                    }
                    return None;
                },
                Some(p) => p,
            };
            let ghost prev = assets@;
            let ghost rest = parse_records(text@, np as int, (count - i - 1) as nat);
            assets.push(a);
            pos = np;
            i = i + 1;
            proof {
                assert(views_of(assets@) =~= views_of(prev) + seq![a@]);
                match rest {
                    Some(p) => {
                        assert((views_of(prev) + seq![a@]) + p.0 =~= views_of(prev) + (seq![a@]
                            + p.0));
                    },
                    None => {},
                }
            }
        }
        proof {
            assert(views_of(assets@) + Seq::<AssetView>::empty() =~= views_of(assets@));
        }
        if pos != slen {
            return None;
        }
        Some(AssetManifest::new(assets))
    }
}

} // verus!
