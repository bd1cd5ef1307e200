//! Message catalogs and localized rendering.
//!
//! A catalog is an immutable mapping from message key to a template string.
//! Catalogs are loaded from flat resource text, one `key = template` line
//! per message (`#` starts a comment line). A template may hold named
//! placeholders of the form `{ $name }`, replaced at render time by the
//! argument of the same name; unresolved or malformed placeholders pass
//! through literally. Catalog selection falls back from the requested
//! language to the configured default, and a missing key degrades to the
//! literal key string, so a caller always receives some message.

use vstd::prelude::*;
use vstd::string::*;
use core::str::FromStr;
use crate::strutil::{
    chars_of, chars_to_string, find_char, find_char_from, lemma_find_char_from, subvec, trim,
    trim_spec,
};

verus! {

/// Whether unic_langid accepts `s` as a language identifier; a function of
/// the characters alone.
pub uninterp spec fn lang_tag_ok(s: Seq<char>) -> bool;

/// The canonical written form of the language identifier parsed from `s`;
/// a function of the characters alone.
pub uninterp spec fn lang_tag_canon(s: Seq<char>) -> Seq<char>;

/// Relies on `unic_langid::LanguageIdentifier`: `from_str` parses a tag
/// deterministically from the characters alone, and `Display` writes the
/// parsed identifier's canonical form.
#[verifier::external_body]
pub(crate) fn parse_language_tag(s: &str) -> (r: Option<String>)
    ensures
        r is Some <==> lang_tag_ok(s@),
        r matches Some(c) ==> c@ == lang_tag_canon(s@),
{
    match unic_langid::LanguageIdentifier::from_str(s) {
        Ok(id) => Some(id.to_string()),
        Err(_) => None,
    }
}

/// The mapping described by a sequence of key/value pairs where the
/// earliest occurrence of a key wins.
pub open spec fn pairs_map<V>(s: Seq<(Seq<char>, V)>) -> Map<Seq<char>, V>
    decreases s.len(),
{
    if s.len() == 0 {
        Map::empty()
    } else {
        pairs_map(s.drop_first()).insert(s[0].0, s[0].1)
    }
}

/// If no key among the first `i` pairs equals `k`, the mapping at `k` is
/// decided by the remaining pairs alone.
pub proof fn lemma_pairs_map_skip<V>(s: Seq<(Seq<char>, V)>, i: int, k: Seq<char>)
    requires
        0 <= i <= s.len(),
        forall|j: int| 0 <= j < i ==> (#[trigger] s[j]).0 != k,
    ensures
        pairs_map(s).contains_key(k) <==> pairs_map(s.skip(i)).contains_key(k),
        pairs_map(s).contains_key(k) ==> pairs_map(s)[k] == pairs_map(s.skip(i))[k],
    decreases i,
{
    if i > 0 {
        lemma_pairs_map_skip(s.drop_first(), i - 1, k);
        assert(s.drop_first().skip(i - 1) =~= s.skip(i));
    } else {
        assert(s.skip(0) =~= s);
    }
}

/// The views of a vector of string pairs.
pub open spec fn pairs_of(v: Seq<(String, String)>) -> Seq<(Seq<char>, Seq<char>)> {
    Seq::new(v.len(), |i: int| (v[i].0@, v[i].1@))
}

/// The argument set described by a vector of `(name, value)` pairs; the
/// earliest occurrence of a name wins.
pub open spec fn args_map(v: Seq<(String, String)>) -> Map<Seq<char>, Seq<char>> {
    pairs_map(pairs_of(v))
}

/// The value of the first pair whose key equals `key`, if any.
fn lookup_pair(entries: &Vec<(String, String)>, key: &String) -> (r: Option<String>)
    ensures
        r is Some <==> args_map(entries@).contains_key(key@),
        r matches Some(v) ==> v@ == args_map(entries@)[key@],
{
    let ghost ps = pairs_of(entries@);
    let mut i: usize = 0;
    while i < entries.len()
        invariant
            i <= entries.len(),
            ps == pairs_of(entries@),
            forall|j: int| 0 <= j < i ==> (#[trigger] ps[j]).0 != key@,
        decreases entries.len() - i,
    {
        if entries[i].0.eq(key) {
            proof {
                lemma_pairs_map_skip(ps, i as int, key@);
                assert(ps.skip(i as int)[0] == ps[i as int]);
                assert(ps.skip(i as int).drop_first() =~= ps.skip(i + 1));
            }
            return Some(entries[i].1.clone());
        }
        i = i + 1;
    }
    proof {
        lemma_pairs_map_skip(ps, i as int, key@);
        assert(ps.skip(i as int) =~= Seq::empty());
    }
    None
}

/// An immutable message catalog: message key to template string.
pub struct Catalog {
    pub entries: Vec<(String, String)>,
}

impl View for Catalog {
    type V = Map<Seq<char>, Seq<char>>;

    open spec fn view(&self) -> Map<Seq<char>, Seq<char>> {
        pairs_map(pairs_of(self.entries@))
    }
}

impl Catalog {
    /// The empty catalog.
    pub fn new() -> (c: Catalog)
        ensures
            c@ == Map::<Seq<char>, Seq<char>>::empty(),
    {
        let c = Catalog { entries: Vec::new() };
        proof {
            assert(pairs_of(c.entries@) =~= Seq::empty());
        }
        c
    }

    /// Binds `key` to `value`, replacing any earlier binding.
    pub fn insert(&mut self, key: String, value: String)
        ensures
            final(self)@ == old(self)@.insert(key@, value@),
    {
        let ghost k = key@;
        let ghost v = value@;
        let ghost olds = pairs_of(old(self).entries@);
        self.entries.insert(0, (key, value));
        proof {
            let news = pairs_of(self.entries@);
            assert(news.drop_first() =~= olds);
            assert(news[0] == (k, v));
            assert(self@ =~= old(self)@.insert(k, v));
        }
    }

    /// The template bound to `key`, if any.
    pub fn get(&self, key: &String) -> (r: Option<String>)
        ensures
            r is Some <==> self@.contains_key(key@),
            r matches Some(v) ==> v@ == self@[key@],
    {
        lookup_pair(&self.entries, key)
    }
}

/// The name inside one placeholder body: the trimmed content must start
/// with `$`, and the rest is the argument name.
pub open spec fn placeholder_name(content: Seq<char>) -> Option<Seq<char>> {
    let t = trim_spec(content);
    if t.len() >= 2 && t[0] == '$' {
        Some(t.subrange(1, t.len() as int))
    } else {
        None
    }
}

/// The rendering of template `t` from index `i` on, under the argument set
/// `args`. A `{ $name }` placeholder whose name is bound becomes the bound
/// value; any other text, including an unresolved or malformed placeholder,
/// passes through literally.
pub open spec fn render_from(t: Seq<char>, args: Map<Seq<char>, Seq<char>>, i: int) -> Seq<char>
    decreases t.len() - i,
        when 0 <= i
{
    if i >= t.len() {
        Seq::empty()
    } else if t[i] == '{' {
        let j = find_char_from(t, '}', i + 1);
        proof {
            lemma_find_char_from(t, '}', i + 1);
        }
        if j >= t.len() {
            seq!['{'] + render_from(t, args, i + 1)
        } else {
            let name = placeholder_name(t.subrange(i + 1, j));
            if name is Some && args.contains_key(name->0) {
                args[name->0] + render_from(t, args, j + 1)
            } else {
                t.subrange(i, j + 1) + render_from(t, args, j + 1)
            }
        }
    } else {
        seq![t[i]] + render_from(t, args, i + 1)
    }
}

/// The full rendering of a template under an argument set.
pub open spec fn render_spec(t: Seq<char>, args: Map<Seq<char>, Seq<char>>) -> Seq<char> {
    render_from(t, args, 0)
}

/// Appends all of `v` to `out`.
fn push_all(out: &mut Vec<char>, v: &Vec<char>)
    ensures
        final(out)@ == old(out)@ + v@,
{
    let mut i: usize = 0;
    while i < v.len()
        invariant
            i <= v.len(),
            out@ == old(out)@ + v@.subrange(0, i as int),
        decreases v.len() - i,
    {
        out.push(v[i]);
        proof {
            assert(out@ =~= old(out)@ + v@.subrange(0, i + 1 as int));
        }
        i = i + 1;
    }
    proof {
        assert(out@ =~= old(out)@ + v@);
    }
}

/// Renders a template under the given named arguments.
pub fn render(template: &str, args: &Vec<(String, String)>) -> (r: String)
    ensures
        r@ == render_spec(template@, args_map(args@)),
{
    let ghost amap = args_map(args@);
    let t = chars_of(template);
    let mut out: Vec<char> = Vec::new();
    let mut i: usize = 0;
    while i < t.len()
        invariant
            i <= t.len(),
            t@ == template@,
            amap == args_map(args@),
            out@ + render_from(t@, amap, i as int) == render_from(t@, amap, 0),
        decreases t.len() - i,
    {
        let ghost out0 = out@;
        if t[i] == '{' {
            let j = find_char(&t, '}', i + 1);
            proof {
                lemma_find_char_from(t@, '}', i + 1);
            }
            if j >= t.len() {
                out.push('{');
                proof {
                    assert(render_from(t@, amap, i as int) == seq!['{'] + render_from(
                        t@,
                        amap,
                        i + 1,
                    ));
                    assert(out@ + render_from(t@, amap, i + 1) =~= out0 + render_from(
                        t@,
                        amap,
                        i as int,
                    ));
                }
                i = i + 1;
            } else {
                let content = subvec(&t, i + 1, j);
                let tc = trim(&content);
                let mut matched = false;
                if tc.len() >= 2 && tc[0] == '$' {
                    let namev = subvec(&tc, 1, tc.len());
                    let name = chars_to_string(&namev);
                    proof {
                        assert(placeholder_name(t@.subrange(i + 1, j as int)) == Some(name@));
                    }
                    match lookup_pair(args, &name) {
                        Some(val) => {
                            let vchars = chars_of(val.as_str());
                            push_all(&mut out, &vchars);
                            matched = true;
                            proof {
                                assert(render_from(t@, amap, i as int) == amap[name@]
                                    + render_from(t@, amap, j + 1));
                                assert(out@ + render_from(t@, amap, j + 1) =~= out0 + render_from(
                                    t@,
                                    amap,
                                    i as int,
                                ));
                            }
                        },
                        None => {},
                    }
                }
                if !matched {
                    let segment = subvec(&t, i, j + 1);
                    push_all(&mut out, &segment);
                    proof {
                        assert(render_from(t@, amap, i as int) == t@.subrange(i as int, j + 1)
                            + render_from(t@, amap, j + 1));
                        assert(out@ + render_from(t@, amap, j + 1) =~= out0 + render_from(
                            t@,
                            amap,
                            i as int,
                        ));
                    }
                }
                i = j + 1;
            }
        } else {
            out.push(t[i]);
            proof {
                assert(render_from(t@, amap, i as int) == seq![t@[i as int]] + render_from(
                    t@,
                    amap,
                    i + 1,
                ));
                assert(out@ + render_from(t@, amap, i + 1) =~= out0 + render_from(
                    t@,
                    amap,
                    i as int,
                ));
            }
            i = i + 1;
        }
    }
    proof {
        assert(out@ =~= render_from(t@, amap, 0));
    }
    chars_to_string(&out)
}

/// What one resource line contributes to a catalog mapping: a binding for
/// lines of the form `key = template` (both sides trimmed of spaces), and
/// nothing for lines without `=`, with an empty key, or whose key starts
/// with `#`.
pub open spec fn apply_line(m: Map<Seq<char>, Seq<char>>, line: Seq<char>) -> Map<
    Seq<char>,
    Seq<char>,
> {
    let e = find_char_from(line, '=', 0);
    if e >= line.len() {
        m
    } else {
        let key = trim_spec(line.subrange(0, e));
        if key.len() == 0 || key[0] == '#' {
            m
        } else {
            m.insert(key, trim_spec(line.subrange(e + 1, line.len() as int)))
        }
    }
}

/// The catalog mapping after reading the resource text `t` from index `i`
/// on, starting from `m`: one line per binding, later lines overriding
/// earlier ones.
pub open spec fn parse_into(m: Map<Seq<char>, Seq<char>>, t: Seq<char>, i: int) -> Map<
    Seq<char>,
    Seq<char>,
>
    decreases t.len() - i,
        when 0 <= i
{
    if i >= t.len() {
        m
    } else {
        let j = find_char_from(t, '\n', i);
        proof {
            lemma_find_char_from(t, '\n', i);
        }
        if j >= t.len() {
            apply_line(m, t.subrange(i, t.len() as int))
        } else {
            parse_into(apply_line(m, t.subrange(i, j)), t, j + 1)
        }
    }
}

/// The catalog mapping of a sequence of resource texts, later texts
/// overriding earlier ones.
pub open spec fn catalog_of(srcs: Seq<Seq<char>>) -> Map<Seq<char>, Seq<char>>
    decreases srcs.len(),
{
    if srcs.len() == 0 {
        Map::empty()
    } else {
        parse_into(catalog_of(srcs.drop_last()), srcs.last(), 0)
    }
}

impl Catalog {
    /// Reads one resource text into the catalog, line by line.
    pub fn add_source(&mut self, content: &str)
        ensures
            final(self)@ == parse_into(old(self)@, content@, 0),
    {
        let t = chars_of(content);
        let mut i: usize = 0;
        while i < t.len()
            invariant
                t@ == content@,
                i <= t.len(),
                parse_into(self@, t@, i as int) == parse_into(old(self)@, t@, 0),
            decreases t.len() - i,
        {
            let ghost prev = self@;
            let ghost iold = i as int;
            let j = find_char(&t, '\n', i);
            proof {
                lemma_find_char_from(t@, '\n', i as int);
            }
            let line = subvec(&t, i, j);
            let e = find_char(&line, '=', 0);
            proof {
                lemma_find_char_from(line@, '=', 0);
            }
            if e < line.len() {
                let rawkey = subvec(&line, 0, e);
                let keyv = trim(&rawkey);
                if keyv.len() > 0 && keyv[0] != '#' {
                    let rawval = subvec(&line, e + 1, line.len());
                    let valv = trim(&rawval);
                    let key = chars_to_string(&keyv);
                    let value = chars_to_string(&valv);
                    self.insert(key, value);
                }
            }
            proof {
                assert(line@ == t@.subrange(iold, j as int));
                assert(self@ == apply_line(prev, line@));
                if j < t.len() {
                    assert(parse_into(prev, t@, iold) == parse_into(self@, t@, j + 1));
                } else {
                    assert(parse_into(prev, t@, iold) == self@);
                    assert(parse_into(self@, t@, j as int) == self@);
                }
            }
            i = j;
            if i < t.len() {
                i = i + 1;
            }
        }
    }
}

/// The language-tag views of registered locales.
pub open spec fn locs_pairs(v: Seq<(String, Catalog)>) -> Seq<
    (Seq<char>, Map<Seq<char>, Seq<char>>),
> {
    Seq::new(v.len(), |i: int| (v[i].0@, v[i].1@))
}

/// The set of registered locales: one immutable catalog per language tag,
/// built once at startup.
pub struct Localizer {
    pub locales: Vec<(String, Catalog)>,
}

impl View for Localizer {
    type V = Map<Seq<char>, Map<Seq<char>, Seq<char>>>;

    open spec fn view(&self) -> Map<Seq<char>, Map<Seq<char>, Seq<char>>> {
        pairs_map(locs_pairs(self.locales@))
    }
}

impl Default for Localizer {
    /// A localizer with no registered locale.
    fn default() -> (r: Localizer)
        ensures
            r@ == Map::<Seq<char>, Map<Seq<char>, Seq<char>>>::empty(),
    {
        let r = Localizer { locales: Vec::new() };
        proof {
            assert(locs_pairs(r.locales@) =~= Seq::empty());
        }
        r
    }
}

impl Localizer {
    /// Parses the given resource texts into one catalog and registers it
    /// for `locale`, replacing any catalog registered for it earlier.
    pub fn add_bundle(&mut self, locale: String, ftl_sources: &Vec<String>)
        ensures
            final(self)@ == old(self)@.insert(
                locale@,
                catalog_of(ftl_sources@.map_values(|s: String| s@)),
            ),
    {
        let ghost srcs = ftl_sources@.map_values(|s: String| s@);
        let ghost k = locale@;
        let mut cat = Catalog::new();
        proof {
            assert(srcs.subrange(0, 0) =~= Seq::empty());
        }
        let mut i: usize = 0;
        while i < ftl_sources.len()
            invariant
                i <= ftl_sources.len(),
                srcs == ftl_sources@.map_values(|s: String| s@),
                cat@ == catalog_of(srcs.subrange(0, i as int)),
            decreases ftl_sources.len() - i,
        {
            cat.add_source(ftl_sources[i].as_str());
            proof {
                assert(srcs.subrange(0, i + 1 as int).drop_last() =~= srcs.subrange(0, i as int));
                assert(srcs.subrange(0, i + 1 as int).last() == srcs[i as int]);
            }
            i = i + 1;
        }
        proof {
            assert(srcs.subrange(0, srcs.len() as int) =~= srcs);
        }
        let ghost olds = locs_pairs(self.locales@);
        let ghost catv = cat@;
        self.locales.insert(0, (locale, cat));
        proof {
            let news = locs_pairs(self.locales@);
            assert(news.drop_first() =~= olds);
            assert(news[0] == (k, catv));
            assert(self@ =~= old(self)@.insert(k, catalog_of(srcs)));
        }
    }

    /// The template for `key` in the catalog registered for `tag`, if both
    /// exist.
    pub fn get_template(&self, tag: &String, key: &String) -> (r: Option<String>)
        ensures
            r is Some <==> (self@.contains_key(tag@) && self@[tag@].contains_key(key@)),
            r matches Some(v) ==> v@ == self@[tag@][key@],
    {
        let ghost ps = locs_pairs(self.locales@);
        let mut i: usize = 0;
        while i < self.locales.len()
            invariant
                i <= self.locales.len(),
                ps == locs_pairs(self.locales@),
                forall|j: int| 0 <= j < i ==> (#[trigger] ps[j]).0 != tag@,
            decreases self.locales.len() - i,
        {
            if self.locales[i].0.eq(tag) {
                proof {
                    lemma_pairs_map_skip(ps, i as int, tag@);
                    assert(ps.skip(i as int)[0] == ps[i as int]);
                    assert(ps.skip(i as int).drop_first() =~= ps.skip(i + 1));
                }
                return self.locales[i].1.get(key);
            }
            i = i + 1;
        }
        proof {
            lemma_pairs_map_skip(ps, i as int, tag@);
            assert(ps.skip(i as int) =~= Seq::empty());
        }
        None
    }
}

/// The registered locales together with the configured default language.
pub struct LocalizerState {
    pub locales: Localizer,
    pub fallback_language: String,
}

/// The language tag whose catalog answers a request: the canonical form of
/// the requested tag when it parses and is registered, the configured
/// default otherwise.
pub open spec fn selected_tag(
    locs: Map<Seq<char>, Map<Seq<char>, Seq<char>>>,
    fallback: Seq<char>,
    lang: Seq<char>,
) -> Seq<char> {
    if lang_tag_ok(lang) && locs.contains_key(lang_tag_canon(lang)) {
        lang_tag_canon(lang)
    } else {
        fallback
    }
}

/// The template answering a message request: the selected catalog's, else
/// the default catalog's, else none.
pub open spec fn message_template(
    locs: Map<Seq<char>, Map<Seq<char>, Seq<char>>>,
    fallback: Seq<char>,
    lang: Seq<char>,
    key: Seq<char>,
) -> Option<Seq<char>> {
    let sel = selected_tag(locs, fallback, lang);
    if locs.contains_key(sel) && locs[sel].contains_key(key) {
        Some(locs[sel][key])
    } else if locs.contains_key(fallback) && locs[fallback].contains_key(key) {
        Some(locs[fallback][key])
    } else {
        None
    }
}

/// The message answering a request: the found template rendered under the
/// arguments, or the literal key when no catalog holds the key.
pub open spec fn message_spec(
    locs: Map<Seq<char>, Map<Seq<char>, Seq<char>>>,
    fallback: Seq<char>,
    lang: Seq<char>,
    key: Seq<char>,
    args: Map<Seq<char>, Seq<char>>,
) -> Seq<char> {
    match message_template(locs, fallback, lang, key) {
        Some(t) => render_spec(t, args),
        None => key,
    }
}

impl LocalizerState {
    /// The localized message for `key` under the requested language, with
    /// the given named arguments. Falls back from the requested catalog to
    /// the default catalog to the literal key, so it always answers.
    pub fn get_message(&self, language: &str, key: &str, args: &Vec<(String, String)>) -> (r:
        String)
        ensures
            r@ == message_spec(
                self.locales@,
                self.fallback_language@,
                language@,
                key@,
                args_map(args@),
            ),
    {
        let key_s = key.to_owned();
        let parsed = parse_language_tag(language);
        let tpl: Option<String> = match &parsed {
            Some(canon) => {
                match self.locales.get_template(canon, &key_s) {
                    Some(v) => Some(v),
                    None => self.locales.get_template(&self.fallback_language, &key_s),
                }
            },
            None => self.locales.get_template(&self.fallback_language, &key_s),
        };
        match tpl {
            Some(t) => render(t.as_str(), args),
            None => key.to_owned(),
        }
    }
}

/// Law: whenever the default catalog is registered and holds the key, a
/// message template is found for every requested language tag, so the same
/// key renders under the same arguments in every catalog that holds it, and
/// rendering never fails.
pub proof fn lemma_message_always_defined(
    locs: Map<Seq<char>, Map<Seq<char>, Seq<char>>>,
    fallback: Seq<char>,
    lang: Seq<char>,
    key: Seq<char>,
)
    requires
        locs.contains_key(fallback),
        locs[fallback].contains_key(key),
    ensures
        message_template(locs, fallback, lang, key) is Some,
{
}

/// Law: an unparsable or unregistered language tag selects the default
/// catalog, so the answer is the default catalog's message for the key.
pub proof fn lemma_unknown_tag_falls_back(
    locs: Map<Seq<char>, Map<Seq<char>, Seq<char>>>,
    fallback: Seq<char>,
    lang: Seq<char>,
    key: Seq<char>,
    args: Map<Seq<char>, Seq<char>>,
)
    requires
        !lang_tag_ok(lang) || !locs.contains_key(lang_tag_canon(lang)),
    ensures
        selected_tag(locs, fallback, lang) == fallback,
        message_spec(locs, fallback, lang, key, args) == (if locs.contains_key(fallback)
            && locs[fallback].contains_key(key) {
            render_spec(locs[fallback][key], args)
        } else {
            key
        }),
{
}

} // verus!
