//! Configuration text handling: parsing `key = value` lines into a map with
//! unique keys, and serializing such a map back to text. File input and
//! output belong to the embedder; this module only transforms text.

use vstd::prelude::*;

use crate::text::str_eq;

verus! {

/// Errors from configuration handling.
#[derive(Debug, Clone)]
pub enum ConfigError {
    /// The configuration file path is not known or does not exist.
    PathNotFound,
    /// Reading the configuration failed; carries the underlying message.
    ReadFailed(String),
    /// Writing the configuration failed; carries the underlying message.
    WriteFailed(String),
    /// There is no configuration to export.
    NoConfigFound,
    /// The user cancelled a file dialog.
    DialogCancelled,
    /// No interactive user session is available for a dialog.
    NoUserSession,
}

/// The description text for a configuration error.
pub open spec fn spec_error_text(e: ConfigError) -> Seq<char> {
    match e {
        ConfigError::PathNotFound => "Configuration path not found"@,
        ConfigError::ReadFailed(msg) => "Read failed: "@ + msg@,
        ConfigError::WriteFailed(msg) => "Write failed: "@ + msg@,
        ConfigError::NoConfigFound => "No configuration found"@,
        ConfigError::DialogCancelled => "Dialog cancelled"@,
        ConfigError::NoUserSession => "No active user session"@,
    }
}

impl ConfigError {
    /// Describe the error as text.
    pub fn message(&self) -> (r: String)
        ensures
            r@ == spec_error_text(*self),
    {
        match self {
            ConfigError::PathNotFound => String::from_str("Configuration path not found"),
            ConfigError::ReadFailed(msg) => String::from_str("Read failed: ").concat(msg.as_str()),
            ConfigError::WriteFailed(msg) => String::from_str("Write failed: ").concat(
                msg.as_str(),
            ),
            ConfigError::NoConfigFound => String::from_str("No configuration found"),
            ConfigError::DialogCancelled => String::from_str("Dialog cancelled"),
            ConfigError::NoUserSession => String::from_str("No active user session"),
        }
    }
}

/// Key/value pairs as they appear in a configuration map, keys unique.
pub type ConfigPairs = Seq<(Seq<char>, Seq<char>)>;

/// Replace the value of `key` if present (keeping its position), else append
/// the pair at the end.
pub open spec fn spec_upsert(pairs: ConfigPairs, key: Seq<char>, value: Seq<char>) -> ConfigPairs
    decreases pairs.len(),
{
    if pairs.len() == 0 {
        seq![(key, value)]
    } else if pairs[0].0 == key {
        seq![(key, value)] + pairs.drop_first()
    } else {
        seq![pairs[0]] + spec_upsert(pairs.drop_first(), key, value)
    }
}

/// The value stored under `key`, if any.
pub open spec fn spec_lookup(pairs: ConfigPairs, key: Seq<char>) -> Option<Seq<char>>
    decreases pairs.len(),
{
    if pairs.len() == 0 {
        None
    } else if pairs[0].0 == key {
        Some(pairs[0].1)
    } else {
        spec_lookup(pairs.drop_first(), key)
    }
}

/// A configuration map: key/value pairs with unique keys, in insertion order.
pub struct ConfigMap {
    pairs: Vec<(String, String)>,
}

impl View for ConfigMap {
    type V = ConfigPairs;

    closed spec fn view(&self) -> ConfigPairs {
        self.pairs@.map_values(|p: (String, String)| (p.0@, p.1@))
    }
}

impl ConfigMap {
    /// Keys are unique.
    pub open spec fn wf(self) -> bool {
        forall|i: int, j: int| 0 <= i < j < self@.len() ==> self@[i].0 != self@[j].0
    }

    /// The empty map.
    pub fn new() -> (r: Self)
        ensures
            r@ == Seq::<(Seq<char>, Seq<char>)>::empty(),
            r.wf(),
    {
        let r = ConfigMap { pairs: Vec::new() };
        proof {
            assert(r@ =~= Seq::<(Seq<char>, Seq<char>)>::empty());
        }
        r
    }

    /// The number of keys.
    pub fn len(&self) -> (n: usize)
        ensures
            n == self@.len(),
    {
        self.pairs.len()
    }

    /// Set `key` to `value`, replacing any existing value for the key.
    pub fn insert(&mut self, key: String, value: String)
        requires
            old(self).wf(),
        ensures
            final(self).wf(),
            final(self)@ == spec_upsert(old(self)@, key@, value@),
    {
        let n = self.pairs.len();
        let mut i: usize = 0;
        while i < n
            invariant
                old(self).wf(),
                n == self.pairs@.len(),
                i <= n,
                self@ == old(self)@,
                forall|j: int| 0 <= j < i ==> old(self)@[j].0 != key@,
            decreases n - i,
        {
            if str_eq(self.pairs[i].0.as_str(), key.as_str()) {
                self.pairs[i] = (key, value);
                proof {
                    let orig = old(self)@;
                    let up = orig.update(i as int, (key@, value@));
                    assert(self@ =~= up);
                    lemma_upsert_found(orig, key@, value@, i as int);
                    assert(forall|j: int| 0 <= j < up.len() ==> up[j].0 == orig[j].0);
                }
                return ;
            }
            i = i + 1;
        }
        self.pairs.push((key, value));
        proof {
            assert(self@ =~= old(self)@.push((key@, value@)));
            lemma_upsert_missing(old(self)@, key@, value@);
        }
    }

    /// The value stored under `key`, if any.
    pub fn get(&self, key: &str) -> (r: Option<String>)
        ensures
            match r {
                Some(v) => spec_lookup(self@, key@) == Some(v@),
                None => spec_lookup(self@, key@) is None,
            },
    {
        let n = self.pairs.len();
        let mut i: usize = 0;
        proof {
            assert(self@.skip(0) =~= self@);
        }
        while i < n
            invariant
                n == self.pairs@.len(),
                i <= n,
                spec_lookup(self@, key@) == spec_lookup(self@.skip(i as int), key@),
            decreases n - i,
        {
            proof {
                assert(self@.skip(i as int)[0] == self@[i as int]);
                assert(self@.skip(i as int).drop_first() =~= self@.skip(i + 1));
            }
            if str_eq(self.pairs[i].0.as_str(), key) {
                return Some(self.pairs[i].1.clone());
            }
            i = i + 1;
        }
        proof {
            assert(self@.skip(n as int).len() == 0);
        }
        None
    }

    /// The pair at a position, for walking the map in insertion order.
    pub fn pair_at(&self, i: usize) -> (r: (String, String))
        requires
            i < self@.len(),
        ensures
            (r.0@, r.1@) == self@[i as int],
    {
        let p = &self.pairs[i];
        (p.0.clone(), p.1.clone())
    }
}

proof fn lemma_upsert_found(pairs: ConfigPairs, key: Seq<char>, value: Seq<char>, i: int)
    requires
        0 <= i < pairs.len(),
        pairs[i].0 == key,
        forall|j: int| 0 <= j < i ==> pairs[j].0 != key,
    ensures
        spec_upsert(pairs, key, value) == pairs.update(i, (key, value)),
    decreases pairs.len(),
{
    if i == 0 {
        assert(spec_upsert(pairs, key, value) =~= pairs.update(0, (key, value)));
    } else {
        assert(forall|j: int|
            0 <= j < i - 1 ==> pairs.drop_first()[j].0 == #[trigger] pairs[j + 1].0);
        lemma_upsert_found(pairs.drop_first(), key, value, i - 1);
        assert(spec_upsert(pairs, key, value) =~= pairs.update(i, (key, value)));
    }
}

proof fn lemma_upsert_missing(pairs: ConfigPairs, key: Seq<char>, value: Seq<char>)
    requires
        forall|j: int| 0 <= j < pairs.len() ==> pairs[j].0 != key,
    ensures
        spec_upsert(pairs, key, value) == pairs.push((key, value)),
    decreases pairs.len(),
{
    if pairs.len() == 0 {
        assert(spec_upsert(pairs, key, value) =~= pairs.push((key, value)));
    } else {
        assert(forall|j: int|
            0 <= j < pairs.len() - 1 ==> pairs.drop_first()[j].0 == #[trigger] pairs[j + 1].0);
        lemma_upsert_missing(pairs.drop_first(), key, value);
        assert(spec_upsert(pairs, key, value) =~= pairs.push((key, value)));
    }
}

/// ASCII whitespace as far as configuration lines are concerned.
pub open spec fn is_space(c: char) -> bool {
    c == ' ' || c == '\t' || c == '\r'
}

/// `s` with leading whitespace removed.
pub open spec fn trim_front(s: Seq<char>) -> Seq<char>
    decreases s.len(),
{
    if s.len() > 0 && is_space(s[0]) {
        trim_front(s.drop_first())
    } else {
        s
    }
}

/// `s` with trailing whitespace removed.
pub open spec fn trim_back(s: Seq<char>) -> Seq<char>
    decreases s.len(),
{
    if s.len() > 0 && is_space(s.last()) {
        trim_back(s.drop_last())
    } else {
        s
    }
}

/// `s` with leading and trailing whitespace removed.
pub open spec fn spec_trim(s: Seq<char>) -> Seq<char> {
    trim_back(trim_front(s))
}

/// The key/value pair held by one configuration line: the trimmed line must
/// be non-empty, not a `#` comment, and contain `=`; key and value are the
/// trimmed texts before and after the first `=`, and the key must be
/// non-empty.
pub open spec fn spec_parse_line(line: Seq<char>) -> Option<(Seq<char>, Seq<char>)> {
    let t = spec_trim(line);
    if t.len() == 0 || t[0] == '#' {
        None
    } else {
        match t.index_of_first('=') {
            None => None,
            Some(p) => {
                let key = spec_trim(t.take(p));
                let value = spec_trim(t.skip(p + 1));
                if key.len() == 0 {
                    None
                } else {
                    Some((key, value))
                }
            },
        }
    }
}

/// Fold one line into the accumulated pairs.
pub open spec fn upsert_line(pairs: ConfigPairs, line: Seq<char>) -> ConfigPairs {
    match spec_parse_line(line) {
        None => pairs,
        Some((key, value)) => spec_upsert(pairs, key, value),
    }
}

/// Walk the remaining text character by character, accumulating the current
/// line and folding it in at every newline and at the end.
pub open spec fn spec_parse_rec(s: Seq<char>, cur: Seq<char>, pairs: ConfigPairs) -> ConfigPairs
    decreases s.len(),
{
    if s.len() == 0 {
        upsert_line(pairs, cur)
    } else if s[0] == '\n' {
        spec_parse_rec(s.drop_first(), Seq::<char>::empty(), upsert_line(pairs, cur))
    } else {
        spec_parse_rec(s.drop_first(), cur.push(s[0]), pairs)
    }
}

/// The configuration map described by a whole text.
pub open spec fn spec_parse(s: Seq<char>) -> ConfigPairs {
    spec_parse_rec(s, Seq::<char>::empty(), Seq::<(Seq<char>, Seq<char>)>::empty())
}

proof fn lemma_trim_front_skip(s: Seq<char>, m: int)
    requires
        0 <= m <= s.len(),
        forall|j: int| 0 <= j < m ==> is_space(s[j]),
        m == s.len() || !is_space(s[m]),
    ensures
        trim_front(s) == s.skip(m),
    decreases m,
{
    if m == 0 {
        assert(s.skip(0) =~= s);
    } else {
        let d = s.drop_first();
        assert(forall|j: int| 0 <= j < d.len() ==> d[j] == s[j + 1]);
        lemma_trim_front_skip(d, m - 1);
        assert(d.skip(m - 1) =~= s.skip(m));
    }
}

proof fn lemma_trim_back_take(s: Seq<char>, m: int)
    requires
        0 <= m <= s.len(),
        forall|j: int| m <= j < s.len() ==> is_space(s[j]),
        m == 0 || !is_space(s[m - 1]),
    ensures
        trim_back(s) == s.take(m),
    decreases s.len(),
{
    if m == s.len() {
        assert(s.take(m) =~= s);
    } else {
        let d = s.drop_last();
        assert(is_space(s.last()));
        assert(forall|j: int| 0 <= j < d.len() ==> d[j] == s[j]);
        lemma_trim_back_take(d, m);
        assert(d.take(m) =~= s.take(m));
    }
}

proof fn lemma_index_of_first_is(t: Seq<char>, c: char, k: int)
    requires
        0 <= k < t.len(),
        t[k] == c,
        forall|j: int| 0 <= j < k ==> t[j] != c,
    ensures
        t.index_of_first(c) == Some(k),
{
    t.index_of_first_ensures(c);
    assert(t.contains(c));
    match t.index_of_first(c) {
        Some(index) => {
            if index < k {
                assert(t[index] != c);
                assert(false);
            }
            if index > k {
                assert(t[k] != c);
                assert(false);
            }
        },
        None => {
            assert(false);
        },
    }
}

proof fn lemma_index_of_first_none(t: Seq<char>, c: char)
    requires
        forall|j: int| 0 <= j < t.len() ==> t[j] != c,
    ensures
        t.index_of_first(c) is None,
{
    t.index_of_first_ensures(c);
    match t.index_of_first(c) {
        Some(index) => {
            assert(t[index] != c);
            assert(false);
        },
        None => {},
    }
}

/// Decide whitespace for trimming.
fn is_space_char(c: char) -> (r: bool)
    ensures
        r == is_space(c),
{
    c == ' ' || c == '\t' || c == '\r'
}

/// Fold one configuration line into the map.
fn parse_one_line(line: &str, vars: &mut ConfigMap)
    requires
        old(vars).wf(),
    ensures
        final(vars).wf(),
        final(vars)@ == upsert_line(old(vars)@, line@),
{
    let n = line.unicode_len();
    // Trim the front.
    let mut ts: usize = 0;
    while ts < n && is_space_char(line.get_char(ts))
        invariant
            n == line@.len(),
            ts <= n,
            forall|j: int| 0 <= j < ts ==> is_space(line@[j]),
        decreases n - ts,
    {
        ts = ts + 1;
    }
    // Trim the back.
    let mut te: usize = n;
    while te > ts && is_space_char(line.get_char(te - 1))
        invariant
            n == line@.len(),
            ts <= te <= n,
            forall|j: int| te <= j < n ==> is_space(line@[j]),
        decreases te,
    {
        te = te - 1;
    }
    proof {
        lemma_trim_front_skip(line@, ts as int);
        if ts < n {
            lemma_trim_back_take(line@.skip(ts as int), te - ts);
        } else {
            assert(line@.skip(ts as int).len() == 0);
        }
        assert(spec_trim(line@) =~= line@.subrange(ts as int, te as int));
    }
    let ghost t = spec_trim(line@);
    if ts == te {
        return ;
    }
    let c0 = line.get_char(ts);
    if c0 == '#' {
        return ;
    }
    // Find the first '=' in the trimmed line.
    let mut e: usize = ts;
    while e < te && line.get_char(e) != '='
        invariant
            n == line@.len(),
            ts <= e <= te <= n,
            forall|j: int| ts <= j < e ==> line@[j] != '=',
        decreases te - e,
    {
        e = e + 1;
    }
    if e == te {
        proof {
            lemma_index_of_first_none(t, '=');
        }
        return ;
    }
    let ghost p = e - ts;
    proof {
        lemma_index_of_first_is(t, '=', p);
    }
    // Trim the key, whose front is already trimmed.
    let mut kte: usize = e;
    while kte > ts && is_space_char(line.get_char(kte - 1))
        invariant
            n == line@.len(),
            ts <= kte <= e <= n,
            forall|j: int| kte <= j < e ==> is_space(line@[j]),
        decreases kte,
    {
        kte = kte - 1;
    }
    proof {
        assert(t.take(p) =~= line@.subrange(ts as int, e as int));
        if ts < e {
            assert(!is_space(t.take(p)[0]));
            assert(trim_front(t.take(p)) == t.take(p));
            lemma_trim_back_take(t.take(p), kte - ts);
        } else {
            assert(t.take(p).len() == 0);
        }
        assert(spec_trim(t.take(p)) =~= line@.subrange(ts as int, kte as int));
    }
    if kte == ts {
        return ;
    }
    // Trim the value, whose back is already trimmed.
    let mut vts: usize = e + 1;
    while vts < te && is_space_char(line.get_char(vts))
        invariant
            n == line@.len(),
            e < vts <= te <= n,
            forall|j: int| e + 1 <= j < vts ==> is_space(line@[j]),
        decreases te - vts,
    {
        vts = vts + 1;
    }
    proof {
        assert(t.skip(p + 1) =~= line@.subrange(e + 1, te as int));
        lemma_trim_front_skip(t.skip(p + 1), vts - (e + 1));
        let f = trim_front(t.skip(p + 1));
        if vts < te {
            assert(!is_space(f.last()));
            assert(trim_back(f) == f);
        } else {
            assert(f.len() == 0);
        }
        assert(spec_trim(t.skip(p + 1)) =~= line@.subrange(vts as int, te as int));
    }
    let key = String::from_str(line.substring_char(ts, kte));
    let value = String::from_str(line.substring_char(vts, te));
    vars.insert(key, value);
}

/// Parse configuration text into a map of `key = value` entries; empty lines
/// and `#` comment lines are ignored, later entries override earlier ones.
pub fn parse_config(content: &str) -> (vars: ConfigMap)
    ensures
        vars.wf(),
        vars@ == spec_parse(content@),
{
    let n = content.unicode_len();
    let mut vars = ConfigMap::new();
    let mut ls: usize = 0;
    let mut i: usize = 0;
    proof {
        assert(content@.skip(0) =~= content@);
        assert(content@.subrange(0, 0) =~= Seq::<char>::empty());
    }
    while i < n
        invariant
            n == content@.len(),
            ls <= i <= n,
            vars.wf(),
            spec_parse(content@) == spec_parse_rec(
                content@.skip(i as int),
                content@.subrange(ls as int, i as int),
                vars@,
            ),
        decreases n - i,
    {
        let ghost rest = content@.skip(i as int);
        proof {
            assert(rest[0] == content@[i as int]);
            assert(rest.drop_first() =~= content@.skip(i + 1));
        }
        let c = content.get_char(i);
        if c == '\n' {
            let cur = content.substring_char(ls, i);
            parse_one_line(cur, &mut vars);
            proof {
                assert(content@.subrange(i + 1, i + 1) =~= Seq::<char>::empty());
            }
            ls = i + 1;
        } else {
            proof {
                assert(content@.subrange(ls as int, i as int).push(content@[i as int]) =~= content@.subrange(
                    ls as int,
                    i + 1,
                ));
            }
        }
        i = i + 1;
    }
    proof {
        assert(content@.skip(n as int).len() == 0);
    }
    let cur = content.substring_char(ls, n);
    parse_one_line(cur, &mut vars);
    vars
}

/// The serialized text of one pair: `key = value` on its own line, or nothing
/// when the value is empty or the word `null`.
pub open spec fn spec_pair_text(p: (Seq<char>, Seq<char>)) -> Seq<char> {
    if p.1.len() > 0 && p.1 != "null"@ {
        p.0 + " = "@ + p.1 + "\n"@
    } else {
        Seq::<char>::empty()
    }
}

/// The serialized text of a whole map, pairs in order.
pub open spec fn spec_serialize(pairs: ConfigPairs) -> Seq<char>
    decreases pairs.len(),
{
    if pairs.len() == 0 {
        Seq::<char>::empty()
    } else {
        spec_pair_text(pairs[0]) + spec_serialize(pairs.drop_first())
    }
}

/// Write a configuration map back to text, one `key = value` line per pair,
/// skipping pairs whose value is empty or the word `null`.
pub fn serialize_config(vars: &ConfigMap) -> (r: String)
    ensures
        r@ == spec_serialize(vars@),
{
    let n = vars.len();
    let mut res = String::new();
    let mut i: usize = 0;
    proof {
        assert(vars@.skip(0) =~= vars@);
        assert(Seq::<char>::empty() + spec_serialize(vars@) =~= spec_serialize(vars@));
    }
    while i < n
        invariant
            n == vars@.len(),
            i <= n,
            spec_serialize(vars@) == res@ + spec_serialize(vars@.skip(i as int)),
        decreases n - i,
    {
        let (key, value) = vars.pair_at(i);
        proof {
            assert(vars@.skip(i as int)[0] == vars@[i as int]);
            assert(vars@.skip(i as int).drop_first() =~= vars@.skip(i + 1));
        }
        if !value.as_str().is_empty() && !str_eq(value.as_str(), "null") {
            res.append(key.as_str());
            res.append(" = ");
            res.append(value.as_str());
            res.append("\n");
        }
        i = i + 1;
    }
    proof {
        assert(vars@.skip(n as int).len() == 0);
        assert(res@ + spec_serialize(vars@.skip(n as int)) =~= res@);
    }
    res
}


/// Given the current configuration text, the text with one value set:
/// parse, set the key, serialize back. Reading and writing the file itself
/// is the embedder's part.
pub fn save_config_value(content: &str, key: &str, value: &str) -> (r: String)
    ensures
        r@ == spec_serialize(spec_upsert(spec_parse(content@), key@, value@)),
{
    let mut vars = parse_config(content);
    vars.insert(String::from_str(key), String::from_str(value));
    serialize_config(&vars)
}

/// Given the current configuration text, the text with the tray language
/// tag set to `locale`.
pub fn save_tray_locale(content: &str, locale: &str) -> (r: String)
    ensures
        r@ == spec_serialize(spec_upsert(spec_parse(content@), "tray_locale"@, locale@)),
{
    save_config_value(content, "tray_locale", locale)
}

} // verus!
