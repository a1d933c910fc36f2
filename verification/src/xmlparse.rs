use vstd::prelude::*;

use crate::inifile::{first_index, lemma_first_index_bounds};
use crate::textfmt::{
    dec_chars, dec_value, escape, esc_char, is_digit, lemma_dec_chars_digits, lemma_dec_value_round,
};
use crate::update::{
    HashFunction, Patch, PatchType, Update, UpdateType, Updates, spec_patch_type_name,
    spec_serialize, spec_serialize_patch, spec_serialize_patches, spec_serialize_update,
    spec_serialize_updates,
};

verus! {

/// The structure a reader of the document recovers for one `patch` element.
#[verifier::ext_equal]
pub struct ParsedPatch {
    pub patch_type: PatchType,
    pub url: Seq<char>,
    pub hash_function: HashFunction,
    pub hash_value: Seq<char>,
    pub size: nat,
}

/// The structure a reader of the document recovers for one `update` element.
#[verifier::ext_equal]
pub struct ParsedUpdate {
    pub update_type: UpdateType,
    pub display_version: Seq<char>,
    pub app_version: Seq<char>,
    pub platform_version: Seq<char>,
    pub build_id: Seq<char>,
    pub patches: Seq<ParsedPatch>,
}

/// The structure a reader of the document recovers: the `updates` root with
/// its `update` elements.
#[verifier::ext_equal]
pub struct ParsedDoc {
    pub updates: Seq<ParsedUpdate>,
}

/// The structure a reader must recover for a serialized patch.
pub open spec fn parsed_patch_of(p: Patch) -> ParsedPatch {
    ParsedPatch {
        patch_type: p.patch_type,
        url: p.url@,
        hash_function: p.hash_function,
        hash_value: p.hash_value@,
        size: p.size as nat,
    }
}

/// The structure a reader must recover for a serialized update record.
pub open spec fn parsed_update_of(u: Update) -> ParsedUpdate {
    ParsedUpdate {
        update_type: u.update_type,
        display_version: u.display_version@,
        app_version: u.app_version@,
        platform_version: u.platform_version@,
        build_id: u.build_id@,
        patches: u.patches@.map_values(|p: Patch| parsed_patch_of(p)),
    }
}

/// The structure a reader must recover for a serialized catalog.
pub open spec fn parsed_doc_of(c: Updates) -> ParsedDoc {
    ParsedDoc { updates: c.updates@.map_values(|u: Update| parsed_update_of(u)) }
}

/// Consumes an expected literal from the front of `s`.
pub open spec fn take_lit(s: Seq<char>, lit: Seq<char>) -> Option<Seq<char>> {
    if s.len() >= lit.len() && s.take(lit.len() as int) == lit {
        Some(s.skip(lit.len() as int))
    } else {
        None
    }
}

/// Consumes an attribute value: everything up to the closing quote.
pub open spec fn take_quoted(s: Seq<char>) -> Option<(Seq<char>, Seq<char>)> {
    let k = first_index(s, '"');
    if k < s.len() {
        Some((s.take(k), s.skip(k + 1)))
    } else {
        None
    }
}

/// The inverse of the attribute encoding: entities back to their characters.
pub open spec fn unescape(s: Seq<char>) -> Seq<char>
    decreases s.len(),
{
    if s.len() == 0 {
        Seq::empty()
    } else if s.len() >= 5 && s.take(5) == "&amp;"@ {
        seq!['&'] + unescape(s.skip(5))
    } else if s.len() >= 4 && s.take(4) == "&lt;"@ {
        seq!['<'] + unescape(s.skip(4))
    } else if s.len() >= 4 && s.take(4) == "&gt;"@ {
        seq!['>'] + unescape(s.skip(4))
    } else if s.len() >= 6 && s.take(6) == "&quot;"@ {
        seq!['"'] + unescape(s.skip(6))
    } else if s.len() >= 6 && s.take(6) == "&apos;"@ {
        seq!['\''] + unescape(s.skip(6))
    } else {
        seq![s[0]] + unescape(s.skip(1))
    }
}

/// Whether every character of `s` is a decimal digit.
pub open spec fn all_digits(s: Seq<char>) -> bool {
    forall|i: int| 0 <= i < s.len() ==> is_digit(s[i])
}

/// The root element's opening line.
pub open spec fn lit_doc_open() -> Seq<char> {
    "<updates>\n"@
}

/// The root element's closing tag.
pub open spec fn lit_doc_close() -> Seq<char> {
    "</updates>"@
}

/// The opening of an update element, up to its first variable attribute value.
pub open spec fn lit_update_open() -> Seq<char> {
    "  <update type=\""@ + "minor"@ + "\" displayVersion=\""@
}

/// The closing line of an update element.
pub open spec fn lit_update_close() -> Seq<char> {
    "  </update>\n"@
}

/// The opening of a patch element, up to its kind attribute value.
pub open spec fn lit_patch_open() -> Seq<char> {
    "    <patch type=\""@
}

/// The self-close of a patch element.
pub open spec fn lit_patch_close() -> Seq<char> {
    "/>\n"@
}

/// The literal between the patch kind and the first variable patch attribute,
/// by kind.
pub open spec fn klit(t: PatchType) -> Seq<char> {
    spec_patch_type_name(t) + "\" URL=\""@
}

/// The fixed hash-function attribute between the URL and the hash value.
pub open spec fn lit_hash() -> Seq<char> {
    " hashFunction=\""@ + "sha512"@ + "\" hashValue=\""@
}

/// Reads the patch kind and the literal that follows it.
pub open spec fn parse_kind(s: Seq<char>) -> Option<(PatchType, Seq<char>)> {
    match take_lit(s, klit(PatchType::Complete)) {
        Some(r) => Some((PatchType::Complete, r)),
        None => match take_lit(s, klit(PatchType::Partial)) {
            Some(r) => Some((PatchType::Partial, r)),
            None => None,
        },
    }
}

/// Reads a patch element's attributes and self-close, the opening literal
/// already consumed.
#[verifier::opaque]
pub open spec fn parse_patch_body(s: Seq<char>) -> Option<(ParsedPatch, Seq<char>)> {
    match parse_kind(s) {
        None => None,
        Some((kind, s)) => match take_quoted(s) {
            None => None,
            Some((url, s)) => match take_lit(s, lit_hash()) {
                None => None,
                Some(s) => match take_quoted(s) {
                    None => None,
                    Some((hv, s)) => match take_lit(s, " size=\""@) {
                        None => None,
                        Some(s) => match take_quoted(s) {
                            None => None,
                            Some((sz, s)) => match take_lit(s, lit_patch_close()) {
                                None => None,
                                Some(rest) => if sz.len() > 0 && all_digits(sz) {
                                    Some(
                                        (
                                            ParsedPatch {
                                                patch_type: kind,
                                                url: unescape(url),
                                                hash_function: HashFunction::Sha512,
                                                hash_value: unescape(hv),
                                                size: dec_value(sz),
                                            },
                                            rest,
                                        ),
                                    )
                                } else {
                                    None
                                },
                            },
                        },
                    },
                },
            },
        },
    }
}

/// Reads patch elements until something other than a patch opening follows.
pub open spec fn parse_patches(s: Seq<char>) -> Option<(Seq<ParsedPatch>, Seq<char>)>
    decreases s.len(),
{
    match take_lit(s, lit_patch_open()) {
        None => Some((Seq::empty(), s)),
        Some(s1) => match parse_patch_body(s1) {
            None => None,
            Some((pp, rest)) => if rest.len() < s.len() {
                match parse_patches(rest) {
                    None => None,
                    Some((pps, r)) => Some((seq![pp] + pps, r)),
                }
            } else {
                None
            },
        },
    }
}

/// Reads an update element's attributes, patches and close, the opening
/// literal already consumed.
#[verifier::opaque]
pub open spec fn parse_update_body(s: Seq<char>) -> Option<(ParsedUpdate, Seq<char>)> {
    match take_quoted(s) {
        None => None,
        Some((dv, s)) => match take_lit(s, " appVersion=\""@) {
            None => None,
            Some(s) => match take_quoted(s) {
                None => None,
                Some((av, s)) => match take_lit(s, " platformVersion=\""@) {
                    None => None,
                    Some(s) => match take_quoted(s) {
                        None => None,
                        Some((pv, s)) => match take_lit(s, " buildID=\""@) {
                            None => None,
                            Some(s) => match take_quoted(s) {
                                None => None,
                                Some((bid, s)) => match take_lit(s, ">\n"@) {
                                    None => None,
                                    Some(s) => match parse_patches(s) {
                                        None => None,
                                        Some((pps, s)) => match take_lit(s, lit_update_close()) {
                                            None => None,
                                            Some(rest) => Some(
                                                (
                                                    ParsedUpdate {
                                                        update_type: UpdateType::Minor,
                                                        display_version: unescape(dv),
                                                        app_version: unescape(av),
                                                        platform_version: unescape(pv),
                                                        build_id: unescape(bid),
                                                        patches: pps,
                                                    },
                                                    rest,
                                                ),
                                            ),
                                        },
                                    },
                                },
                            },
                        },
                    },
                },
            },
        },
    }
}

/// Reads update elements until something other than an update opening
/// follows.
pub open spec fn parse_updates(s: Seq<char>) -> Option<(Seq<ParsedUpdate>, Seq<char>)>
    decreases s.len(),
{
    match take_lit(s, lit_update_open()) {
        None => Some((Seq::empty(), s)),
        Some(s1) => match parse_update_body(s1) {
            None => None,
            Some((pu, rest)) => if rest.len() < s.len() {
                match parse_updates(rest) {
                    None => None,
                    Some((pus, r)) => Some((seq![pu] + pus, r)),
                }
            } else {
                None
            },
        },
    }
}

/// Reads a whole document back into its structure: one `updates` root around
/// the update elements, every attribute value decoded; anything that does not
/// follow the serializer's shape is rejected.
pub open spec fn parse_doc(s: Seq<char>) -> Option<ParsedDoc> {
    match take_lit(s, lit_doc_open()) {
        None => None,
        Some(s) => match parse_updates(s) {
            None => None,
            Some((us, s)) => match take_lit(s, lit_doc_close()) {
                None => None,
                Some(rest) => if rest.len() == 0 {
                    Some(ParsedDoc { updates: us })
                } else {
                    None
                },
            },
        },
    }
}

/// Consuming a literal that stands at the front leaves exactly the rest.
pub proof fn lemma_take_lit(lit: Seq<char>, r: Seq<char>)
    ensures
        take_lit(lit + r, lit) == Some(r),
{
    assert((lit + r).take(lit.len() as int) =~= lit);
    assert((lit + r).skip(lit.len() as int) =~= r);
}

/// Reading a quote-free value up to its closing quote recovers the value and
/// what follows the quote.
pub proof fn lemma_take_quoted(v: Seq<char>, r: Seq<char>)
    requires
        forall|i: int| 0 <= i < v.len() ==> v[i] != '"',
    ensures
        take_quoted(v + seq!['"'] + r) == Some((v, r)),
{
    let s = v + seq!['"'] + r;
    lemma_first_index_bounds(s, '"');
    assert(s[v.len() as int] == '"');
    assert forall|m: int| 0 <= m < v.len() implies s[m] != '"' by {
        assert(s[m] == v[m]);
    }
    assert(first_index(s, '"') == v.len());
    assert(s.take(v.len() as int) =~= v);
    assert(s.skip(v.len() as int + 1) =~= r);
}

/// No character of an attribute-encoded value is a quote.
pub proof fn lemma_escape_no_quote(s: Seq<char>)
    ensures
        forall|i: int| 0 <= i < escape(s).len() ==> escape(s)[i] != '"',
    decreases s.len(),
{
    reveal_strlit("&amp;");
    reveal_strlit("&lt;");
    reveal_strlit("&gt;");
    reveal_strlit("&quot;");
    reveal_strlit("&apos;");
    if s.len() > 0 {
        lemma_escape_no_quote(s.skip(1));
        let e = esc_char(s[0]);
        assert forall|i: int| 0 <= i < escape(s).len() implies escape(s)[i] != '"' by {
            if i < e.len() {
                assert(escape(s)[i] == e[i]);
            } else {
                assert(escape(s)[i] == escape(s.skip(1))[i - e.len()]);
            }
        }
    }
}

/// Decoding an attribute-encoded value recovers the value.
pub proof fn lemma_unescape_escape(s: Seq<char>)
    ensures
        unescape(escape(s)) == s,
    decreases s.len(),
{
    reveal_strlit("&amp;");
    reveal_strlit("&lt;");
    reveal_strlit("&gt;");
    reveal_strlit("&quot;");
    reveal_strlit("&apos;");
    if s.len() == 0 {
        assert(unescape(escape(s)) =~= s);
    } else {
        lemma_unescape_escape(s.skip(1));
        let c = s[0];
        let e = escape(s.skip(1));
        let t = escape(s);
        assert(t == esc_char(c) + e);
        if c == '&' {
            assert(t.take(5) =~= "&amp;"@);
            assert(t.skip(5) =~= e);
            assert(seq!['&'] + s.skip(1) =~= s);
        } else if c == '<' {
            assert(t[1] == 'l');
            assert(t.len() >= 5 ==> t.take(5) != "&amp;"@) by {
                if t.len() >= 5 {
                    assert(t.take(5)[1] == 'l');
                }
            }
            assert(t.take(4) =~= "&lt;"@);
            assert(t.skip(4) =~= e);
            assert(seq!['<'] + s.skip(1) =~= s);
        } else if c == '>' {
            assert(t[1] == 'g');
            assert(t.len() >= 5 ==> t.take(5) != "&amp;"@) by {
                if t.len() >= 5 {
                    assert(t.take(5)[1] == 'g');
                }
            }
            assert(t.take(4) != "&lt;"@) by {
                assert(t.take(4)[1] == 'g');
            }
            assert(t.take(4) =~= "&gt;"@);
            assert(t.skip(4) =~= e);
            assert(seq!['>'] + s.skip(1) =~= s);
        } else if c == '"' {
            assert(t[1] == 'q');
            assert(t.len() >= 5 ==> t.take(5) != "&amp;"@) by {
                if t.len() >= 5 {
                    assert(t.take(5)[1] == 'q');
                }
            }
            assert(t.take(4) != "&lt;"@) by {
                assert(t.take(4)[1] == 'q');
            }
            assert(t.take(4) != "&gt;"@) by {
                assert(t.take(4)[1] == 'q');
            }
            assert(t.take(6) =~= "&quot;"@);
            assert(t.skip(6) =~= e);
            assert(seq!['"'] + s.skip(1) =~= s);
        } else if c == '\'' {
            assert(t[2] == 'p');
            assert(t.len() >= 5 ==> t.take(5) != "&amp;"@) by {
                if t.len() >= 5 {
                    assert(t.take(5)[2] == 'p');
                }
            }
            assert(t[1] == 'a');
            assert(t.take(4) != "&lt;"@) by {
                assert(t.take(4)[1] == 'a');
            }
            assert(t.take(4) != "&gt;"@) by {
                assert(t.take(4)[1] == 'a');
            }
            assert(t.take(6) != "&quot;"@) by {
                assert(t.take(6)[1] == 'a');
            }
            assert(t.take(6) =~= "&apos;"@);
            assert(t.skip(6) =~= e);
            assert(seq!['\''] + s.skip(1) =~= s);
        } else {
            assert(t[0] == c);
            assert(t.len() >= 5 ==> t.take(5) != "&amp;"@) by {
                if t.len() >= 5 {
                    assert(t.take(5)[0] == c);
                }
            }
            assert(t.len() >= 4 ==> t.take(4) != "&lt;"@) by {
                if t.len() >= 4 {
                    assert(t.take(4)[0] == c);
                }
            }
            assert(t.len() >= 4 ==> t.take(4) != "&gt;"@) by {
                if t.len() >= 4 {
                    assert(t.take(4)[0] == c);
                }
            }
            assert(t.len() >= 6 ==> t.take(6) != "&quot;"@) by {
                if t.len() >= 6 {
                    assert(t.take(6)[0] == c);
                }
            }
            assert(t.len() >= 6 ==> t.take(6) != "&apos;"@) by {
                if t.len() >= 6 {
                    assert(t.take(6)[0] == c);
                }
            }
            assert(t.skip(1) =~= e);
            assert(seq![c] + s.skip(1) =~= s);
        }
    }
}

/// Reading the patch kind back from its serialized name and what follows.
proof fn lemma_parse_kind(t: PatchType, q: Seq<char>)
    ensures
        parse_kind(spec_patch_type_name(t) + "\" URL=\""@ + q) == Some((t, q)),
{
    reveal_strlit("complete");
    reveal_strlit("partial");
    let s = spec_patch_type_name(t) + "\" URL=\""@ + q;
    match t {
        PatchType::Complete => {
            assert(s =~= klit(PatchType::Complete) + q);
            lemma_take_lit(klit(PatchType::Complete), q);
        },
        PatchType::Partial => {
            assert(s[0] == 'p');
            if take_lit(s, klit(PatchType::Complete)) is Some {
                assert(s.take(klit(PatchType::Complete).len() as int)[0] == 'c');
                assert(false);
            }
            assert(s =~= klit(PatchType::Partial) + q);
            lemma_take_lit(klit(PatchType::Partial), q);
        },
    }
}

/// The serialized patch element's attributes and close, regrouped from the
/// kind name onward, as a reader consumes it; `rest` is what follows the
/// element.
spec fn chain_kind(p: Patch, rest: Seq<char>) -> Seq<char> {
    spec_patch_type_name(p.patch_type) + "\" URL=\""@ + chain_url(p, rest)
}

spec fn chain_url(p: Patch, rest: Seq<char>) -> Seq<char> {
    escape(p.url@) + seq!['"'] + (lit_hash() + chain_hash(p, rest))
}

spec fn chain_hash(p: Patch, rest: Seq<char>) -> Seq<char> {
    escape(p.hash_value@) + seq!['"'] + (" size=\""@ + chain_size(p, rest))
}

spec fn chain_size(p: Patch, rest: Seq<char>) -> Seq<char> {
    dec_chars(p.size as nat) + seq!['"'] + (lit_patch_close() + rest)
}

/// The serialized update element's attributes and body, regrouped from the
/// first variable attribute value onward; `rest` is what follows the element.
spec fn chain_dv(u: Update, rest: Seq<char>) -> Seq<char> {
    escape(u.display_version@) + seq!['"'] + (" appVersion=\""@ + chain_av(u, rest))
}

spec fn chain_av(u: Update, rest: Seq<char>) -> Seq<char> {
    escape(u.app_version@) + seq!['"'] + (" platformVersion=\""@ + chain_pv(u, rest))
}

spec fn chain_pv(u: Update, rest: Seq<char>) -> Seq<char> {
    escape(u.platform_version@) + seq!['"'] + (" buildID=\""@ + chain_bid(u, rest))
}

spec fn chain_bid(u: Update, rest: Seq<char>) -> Seq<char> {
    escape(u.build_id@) + seq!['"'] + (">\n"@ + (spec_serialize_patches(u.patches@) + (
    lit_update_close() + rest)))
}

/// Each literal the serializer writes right after an attribute value starts
/// with the value's closing quote.
proof fn lemma_quote_splits()
    ensures
        "\" appVersion=\""@ == seq!['"'] + " appVersion=\""@,
        "\" platformVersion=\""@ == seq!['"'] + " platformVersion=\""@,
        "\" buildID=\""@ == seq!['"'] + " buildID=\""@,
        "\">\n"@ == seq!['"'] + ">\n"@,
        "\" hashFunction=\""@ == seq!['"'] + " hashFunction=\""@,
        "\" size=\""@ == seq!['"'] + " size=\""@,
        "\"/>\n"@ == seq!['"'] + "/>\n"@,
{
    reveal_strlit("\" appVersion=\"");
    reveal_strlit(" appVersion=\"");
    assert("\" appVersion=\""@ =~= seq!['"'] + " appVersion=\""@);
    reveal_strlit("\" platformVersion=\"");
    reveal_strlit(" platformVersion=\"");
    assert("\" platformVersion=\""@ =~= seq!['"'] + " platformVersion=\""@);
    reveal_strlit("\" buildID=\"");
    reveal_strlit(" buildID=\"");
    assert("\" buildID=\""@ =~= seq!['"'] + " buildID=\""@);
    reveal_strlit("\">\n");
    reveal_strlit(">\n");
    assert("\">\n"@ =~= seq!['"'] + ">\n"@);
    reveal_strlit("\" hashFunction=\"");
    reveal_strlit(" hashFunction=\"");
    assert("\" hashFunction=\""@ =~= seq!['"'] + " hashFunction=\""@);
    reveal_strlit("\" size=\"");
    reveal_strlit(" size=\"");
    assert("\" size=\""@ =~= seq!['"'] + " size=\""@);
    reveal_strlit("\"/>\n");
    reveal_strlit("/>\n");
    assert("\"/>\n"@ =~= seq!['"'] + "/>\n"@);
}

/// A serialized patch element followed by anything, read as the regrouped
/// chain.
#[verifier::rlimit(100)]
proof fn lemma_flat_patch(p: Patch, rest: Seq<char>)
    ensures
        spec_serialize_patch(p) + rest == lit_patch_open() + chain_kind(p, rest),
{
    lemma_quote_splits();
    assert(spec_serialize_patch(p) + rest =~= lit_patch_open() + chain_kind(p, rest));
}

/// The patch chain only grows what it wraps.
proof fn lemma_chain_kind_len(p: Patch, rest: Seq<char>)
    ensures
        chain_kind(p, rest).len() >= rest.len(),
{
    assert(chain_size(p, rest).len() >= rest.len());
    assert(chain_hash(p, rest).len() >= rest.len());
    assert(chain_url(p, rest).len() >= rest.len());
}

/// A serialized update element followed by anything, read as the regrouped
/// chain.
#[verifier::rlimit(100)]
proof fn lemma_flat_update(u: Update, rest: Seq<char>)
    ensures
        spec_serialize_update(u) + rest == lit_update_open() + chain_dv(u, rest),
{
    lemma_quote_splits();
    match u.update_type {
        UpdateType::Minor => {},
    }
    assert(escape(u.build_id@) + ("\">\n"@ + (spec_serialize_patches(u.patches@) + (
    lit_update_close() + rest))) =~= chain_bid(u, rest));
    assert(escape(u.platform_version@) + ("\" buildID=\""@ + chain_bid(u, rest)) =~= chain_pv(
        u,
        rest,
    ));
    assert(escape(u.app_version@) + ("\" platformVersion=\""@ + chain_pv(u, rest)) =~= chain_av(
        u,
        rest,
    ));
    assert(escape(u.display_version@) + ("\" appVersion=\""@ + chain_av(u, rest)) =~= chain_dv(
        u,
        rest,
    ));
    assert(spec_serialize_update(u) + rest =~= lit_update_open() + chain_dv(u, rest));
}

/// The update chain only grows what it wraps.
proof fn lemma_chain_dv_len(u: Update, rest: Seq<char>)
    ensures
        chain_dv(u, rest).len() >= rest.len(),
{
    assert(chain_bid(u, rest).len() >= rest.len());
    assert(chain_pv(u, rest).len() >= rest.len());
    assert(chain_av(u, rest).len() >= rest.len());
}

/// The serialized patch elements of a sequence decompose at the front.
proof fn lemma_patches_front(ps: Seq<Patch>)
    requires
        ps.len() > 0,
    ensures
        spec_serialize_patches(ps) == spec_serialize_patch(ps[0]) + spec_serialize_patches(
            ps.skip(1),
        ),
    decreases ps.len(),
{
    if ps.len() == 1 {
        assert(ps.drop_last() =~= Seq::<Patch>::empty());
        assert(ps.skip(1) =~= Seq::<Patch>::empty());
        assert(spec_serialize_patches(Seq::<Patch>::empty()) =~= Seq::<char>::empty());
        assert(spec_serialize_patches(ps) =~= spec_serialize_patch(ps[0])
            + spec_serialize_patches(ps.skip(1)));
    } else {
        lemma_patches_front(ps.drop_last());
        assert(ps.drop_last()[0] == ps[0]);
        assert(ps.skip(1).drop_last() =~= ps.drop_last().skip(1));
        assert(ps.skip(1).last() == ps.last());
        assert(spec_serialize_patches(ps) =~= spec_serialize_patch(ps[0])
            + spec_serialize_patches(ps.skip(1)));
    }
}

/// The serialized update elements of a sequence decompose at the front.
proof fn lemma_updates_front(us: Seq<Update>)
    requires
        us.len() > 0,
    ensures
        spec_serialize_updates(us) == spec_serialize_update(us[0]) + spec_serialize_updates(
            us.skip(1),
        ),
    decreases us.len(),
{
    if us.len() == 1 {
        assert(us.drop_last() =~= Seq::<Update>::empty());
        assert(us.skip(1) =~= Seq::<Update>::empty());
        assert(spec_serialize_updates(Seq::<Update>::empty()) =~= Seq::<char>::empty());
        assert(spec_serialize_updates(us) =~= spec_serialize_update(us[0])
            + spec_serialize_updates(us.skip(1)));
    } else {
        lemma_updates_front(us.drop_last());
        assert(us.drop_last()[0] == us[0]);
        assert(us.skip(1).drop_last() =~= us.drop_last().skip(1));
        assert(us.skip(1).last() == us.last());
        assert(spec_serialize_updates(us) =~= spec_serialize_update(us[0])
            + spec_serialize_updates(us.skip(1)));
    }
}

/// Reading a patch body from the regrouped chain recovers the patch and what
/// follows the element.
proof fn lemma_parse_patch_body(p: Patch, rest: Seq<char>)
    ensures
        parse_patch_body(chain_kind(p, rest)) == Some((parsed_patch_of(p), rest)),
{
    reveal(parse_patch_body);
    lemma_parse_kind(p.patch_type, chain_url(p, rest));
    lemma_escape_no_quote(p.url@);
    lemma_take_quoted(escape(p.url@), lit_hash() + chain_hash(p, rest));
    lemma_take_lit(lit_hash(), chain_hash(p, rest));
    lemma_escape_no_quote(p.hash_value@);
    lemma_take_quoted(escape(p.hash_value@), " size=\""@ + chain_size(p, rest));
    lemma_take_lit(" size=\""@, chain_size(p, rest));
    lemma_dec_chars_digits(p.size as nat);
    let sz = dec_chars(p.size as nat);
    assert forall|i: int| 0 <= i < sz.len() implies sz[i] != '"' by {
        assert(is_digit(sz[i]));
    }
    lemma_take_quoted(sz, lit_patch_close() + rest);
    lemma_take_lit(lit_patch_close(), rest);
    lemma_dec_value_round(p.size as nat);
    assert(sz.len() > 0);
    lemma_unescape_escape(p.url@);
    lemma_unescape_escape(p.hash_value@);
    match p.hash_function {
        HashFunction::Sha512 => {},
    }
    assert(parse_patch_body(chain_kind(p, rest)) =~= Some((parsed_patch_of(p), rest)));
}

/// Reading patch elements from the serialized sequence, with the update close
/// behind them, recovers exactly the sequence.
proof fn lemma_parse_patches_seq(ps: Seq<Patch>, r: Seq<char>)
    ensures
        parse_patches(spec_serialize_patches(ps) + (lit_update_close() + r)) == Some(
            (ps.map_values(|p: Patch| parsed_patch_of(p)), lit_update_close() + r),
        ),
    decreases ps.len(),
{
    reveal_strlit("  </update>\n");
    reveal_strlit("    <patch type=\"");
    if ps.len() == 0 {
        let s = spec_serialize_patches(ps) + (lit_update_close() + r);
        assert(spec_serialize_patches(ps) =~= Seq::<char>::empty());
        assert(s =~= lit_update_close() + r);
        assert(s[2] == '<');
        if take_lit(s, lit_patch_open()) is Some {
            assert(s.take(lit_patch_open().len() as int)[2] == ' ');
            assert(false);
        }
        assert(ps.map_values(|p: Patch| parsed_patch_of(p)) =~= Seq::<ParsedPatch>::empty());
    } else {
        let tail = lit_update_close() + r;
        let rest1 = spec_serialize_patches(ps.skip(1)) + tail;
        let s = spec_serialize_patches(ps) + tail;
        lemma_patches_front(ps);
        lemma_flat_patch(ps[0], rest1);
        assert(s =~= spec_serialize_patch(ps[0]) + rest1);
        assert(s == lit_patch_open() + chain_kind(ps[0], rest1));
        lemma_take_lit(lit_patch_open(), chain_kind(ps[0], rest1));
        lemma_parse_patch_body(ps[0], rest1);
        lemma_chain_kind_len(ps[0], rest1);
        assert(lit_patch_open().len() > 0);
        assert(rest1.len() < s.len());
        lemma_parse_patches_seq(ps.skip(1), r);
        assert(ps.map_values(|p: Patch| parsed_patch_of(p)) =~= seq![parsed_patch_of(ps[0])]
            + ps.skip(1).map_values(|p: Patch| parsed_patch_of(p)));
    }
}

/// Reading an update body from the regrouped chain recovers the update and
/// what follows the element.
proof fn lemma_parse_update_body(u: Update, rest: Seq<char>)
    ensures
        parse_update_body(chain_dv(u, rest)) == Some((parsed_update_of(u), rest)),
{
    reveal(parse_update_body);
    lemma_escape_no_quote(u.display_version@);
    lemma_take_quoted(escape(u.display_version@), " appVersion=\""@ + chain_av(u, rest));
    lemma_take_lit(" appVersion=\""@, chain_av(u, rest));
    lemma_escape_no_quote(u.app_version@);
    lemma_take_quoted(escape(u.app_version@), " platformVersion=\""@ + chain_pv(u, rest));
    lemma_take_lit(" platformVersion=\""@, chain_pv(u, rest));
    lemma_escape_no_quote(u.platform_version@);
    lemma_take_quoted(escape(u.platform_version@), " buildID=\""@ + chain_bid(u, rest));
    lemma_take_lit(" buildID=\""@, chain_bid(u, rest));
    lemma_escape_no_quote(u.build_id@);
    let after_bid = ">\n"@ + (spec_serialize_patches(u.patches@) + (lit_update_close() + rest));
    lemma_take_quoted(escape(u.build_id@), after_bid);
    lemma_take_lit(">\n"@, spec_serialize_patches(u.patches@) + (lit_update_close() + rest));
    lemma_parse_patches_seq(u.patches@, rest);
    lemma_take_lit(lit_update_close(), rest);
    lemma_unescape_escape(u.display_version@);
    lemma_unescape_escape(u.app_version@);
    lemma_unescape_escape(u.platform_version@);
    lemma_unescape_escape(u.build_id@);
    match u.update_type {
        UpdateType::Minor => {},
    }
    assert(parse_update_body(chain_dv(u, rest)) =~= Some((parsed_update_of(u), rest)));
}

/// Reading update elements from the serialized sequence, with the document
/// close behind them, recovers exactly the sequence.
#[verifier::rlimit(100)]
proof fn lemma_parse_updates_seq(us: Seq<Update>, r: Seq<char>)
    ensures
        parse_updates(spec_serialize_updates(us) + (lit_doc_close() + r)) == Some(
            (us.map_values(|u: Update| parsed_update_of(u)), lit_doc_close() + r),
        ),
    decreases us.len(),
{
    reveal_strlit("</updates>");
    reveal_strlit("  <update type=\"");
    if us.len() == 0 {
        let s = spec_serialize_updates(us) + (lit_doc_close() + r);
        assert(spec_serialize_updates(us) =~= Seq::<char>::empty());
        assert(s =~= lit_doc_close() + r);
        assert(s[0] == '<');
        if take_lit(s, lit_update_open()) is Some {
            assert(s.take(lit_update_open().len() as int)[0] == ' ');
            assert(false);
        }
        assert(us.map_values(|u: Update| parsed_update_of(u)) =~= Seq::<ParsedUpdate>::empty());
    } else {
        let tail = lit_doc_close() + r;
        let rest1 = spec_serialize_updates(us.skip(1)) + tail;
        let s = spec_serialize_updates(us) + tail;
        lemma_updates_front(us);
        lemma_flat_update(us[0], rest1);
        assert(s =~= spec_serialize_update(us[0]) + rest1);
        assert(s == lit_update_open() + chain_dv(us[0], rest1));
        lemma_take_lit(lit_update_open(), chain_dv(us[0], rest1));
        lemma_parse_update_body(us[0], rest1);
        lemma_chain_dv_len(us[0], rest1);
        assert(lit_update_open().len() > 0);
        assert(rest1.len() < s.len());
        lemma_parse_updates_seq(us.skip(1), r);
        assert(us.map_values(|u: Update| parsed_update_of(u)) =~= seq![parsed_update_of(us[0])]
            + us.skip(1).map_values(|u: Update| parsed_update_of(u)));
    }
}

/// Round trip: reading the serialized document of any catalog recovers
/// exactly its structure — one root, one `update` element per record, its
/// `patch` elements in order, and every attribute value decoded back to the
/// field it came from.
pub proof fn lemma_parse_serialize(c: Updates)
    ensures
        parse_doc(spec_serialize(c)) == Some(parsed_doc_of(c)),
{
    let s = spec_serialize(c);
    assert(s =~= lit_doc_open() + (spec_serialize_updates(c.updates@) + (lit_doc_close()
        + Seq::<char>::empty())));
    lemma_take_lit(
        lit_doc_open(),
        spec_serialize_updates(c.updates@) + (lit_doc_close() + Seq::<char>::empty()),
    );
    lemma_parse_updates_seq(c.updates@, Seq::<char>::empty());
    lemma_take_lit(lit_doc_close(), Seq::<char>::empty());
    assert(lit_doc_close() + Seq::<char>::empty() =~= lit_doc_close());
    assert(parse_doc(s) =~= Some(parsed_doc_of(c)));
}

} // verus!
