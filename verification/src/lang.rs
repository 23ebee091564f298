//! Locale handling and the translation table.
//!
//! The translation table is flattened out of a nested configuration value:
//! every string reachable through nested objects becomes one entry whose key
//! is the path of object keys joined with dots. The surrounding process
//! parses the raw locale files and hands the nested value in; the flattening
//! and every lookup are the library's own.

use vstd::prelude::*;
use crate::text::copy_text;

verus! {

/// The locales the engine ships translations for.
#[derive(Clone, Copy, Debug, PartialEq, Eq, Structural)]
pub enum SupportedLang {
    De,
    En,
}

impl Default for SupportedLang {
    /// English is the locale before any configuration.
    fn default() -> (r: Self)
        ensures
            r == SupportedLang::En,
    {
        SupportedLang::En
    }
}

/// The locale a language tag resolves to: `de` and `de-...` select German,
/// everything else — `en`, `en-...`, and any unsupported tag — falls back to
/// English.
pub open spec fn resolved_lang(s: Seq<char>) -> SupportedLang {
    if s == "de"@ || (s.len() >= 3 && s.take(3) == "de-"@) {
        SupportedLang::De
    } else {
        SupportedLang::En
    }
}

/// A nested configuration value, as far as the flattening reads it: an
/// object of keyed values, a text, or anything else.
pub enum ConfigValue {
    Object(Vec<ConfigField>),
    Text(Vec<char>),
    OtherVal,
}

/// One keyed field of a configuration object.
pub struct ConfigField {
    pub key: Vec<char>,
    pub value: ConfigValue,
}

/// An ordered key-to-text table; a key inserted again shadows its earlier
/// entry.
#[derive(Clone, Debug, PartialEq)]
pub struct TransMap {
    pub entries: Vec<(Vec<char>, Vec<char>)>,
}

/// The mathematical image of an entry list.
pub open spec fn pairs_view(s: Seq<(Vec<char>, Vec<char>)>) -> Seq<(Seq<char>, Seq<char>)> {
    Seq::new(s.len(), |i: int| (s[i].0@, s[i].1@))
}

/// The map an ordered entry list stands for: later entries shadow earlier
/// ones.
pub open spec fn entries_map(s: Seq<(Seq<char>, Seq<char>)>) -> Map<Seq<char>, Seq<char>>
    decreases s.len(),
{
    if s.len() == 0 {
        Map::empty()
    } else {
        entries_map(s.drop_last()).insert(s.last().0, s.last().1)
    }
}

impl TransMap {
    /// The map this table stands for.
    pub open spec fn view(&self) -> Map<Seq<char>, Seq<char>> {
        entries_map(pairs_view(self.entries@))
    }

    /// An empty table.
    pub fn new() -> (r: TransMap)
        ensures
            r.entries@ == Seq::<(Vec<char>, Vec<char>)>::empty(),
    {
        TransMap { entries: Vec::new() }
    }

    /// Looks a key up; the latest entry for it answers.
    pub fn get(&self, key: &Vec<char>) -> (r: Option<&Vec<char>>)
        ensures
            match r {
                Some(v) => self@.contains_key(key@) && self@[key@] == v@,
                None => !self@.contains_key(key@),
            },
    {
        let mut i: usize = self.entries.len();
        proof {
            assert(pairs_view(self.entries@).take(self.entries@.len() as int) =~= pairs_view(
                self.entries@,
            ));
        }
        while i > 0
            invariant
                i <= self.entries.len(),
                entries_map(pairs_view(self.entries@).take(i as int)).contains_key(key@)
                    == self@.contains_key(key@),
                entries_map(pairs_view(self.entries@).take(i as int)).contains_key(key@)
                    ==> entries_map(pairs_view(self.entries@).take(i as int))[key@] == self@[key@],
            decreases i,
        {
            i = i - 1;
            proof {
                assert(pairs_view(self.entries@).take(i as int + 1).drop_last() =~= pairs_view(
                    self.entries@,
                ).take(i as int));
                assert(pairs_view(self.entries@).take(i as int + 1).last() == (
                self.entries@[i as int].0@,
                self.entries@[i as int].1@,
                ));
            }
            if crate::text::text_eq(&self.entries[i].0, key) {
                return Some(&self.entries[i].1);
            }
        }
        proof {
            assert(pairs_view(self.entries@).take(0) =~= Seq::<(Seq<char>, Seq<char>)>::empty());
        }
        None
    }
}

/// The number of values a configuration value contains, itself included;
/// the measure the executable flattening recurses on.
pub open spec fn cv_size(v: ConfigValue) -> nat
    decreases v, 0int, 0int,
{
    match v {
        ConfigValue::Object(fields) => fields_size(fields, 0) + 1,
        ConfigValue::Text(_) => 1,
        ConfigValue::OtherVal => 1,
    }
}

/// The number of values the fields of an object contain from position `j`
/// on.
pub open spec fn fields_size(fields: Vec<ConfigField>, j: int) -> nat
    decreases fields, 1int, fields.len() - j,
    when 0 <= j
{
    if j >= fields.len() {
        0
    } else {
        cv_size(fields[j].value) + fields_size(fields, j + 1)
    }
}

/// Every field's value is counted inside its object.
proof fn lemma_field_size(fields: Vec<ConfigField>, j: int, k: int)
    requires
        0 <= j <= k < fields.len(),
    ensures
        cv_size(fields[k].value) <= fields_size(fields, j),
    decreases k - j,
{
    if j < k {
        lemma_field_size(fields, j + 1, k);
    }
}

/// The entries a value contributes under a key path, in reading order.
pub open spec fn flatten_value(prefix: Seq<char>, v: ConfigValue) -> Seq<(Seq<char>, Seq<char>)>
    decreases v, 0int, 0int,
{
    match v {
        ConfigValue::Text(s) => seq![(prefix, s@)],
        ConfigValue::OtherVal => Seq::empty(),
        ConfigValue::Object(fields) => flatten_fields(prefix, fields, 0),
    }
}

/// The entries the fields of an object contribute from position `j` on.
pub open spec fn flatten_fields(prefix: Seq<char>, fields: Vec<ConfigField>, j: int) -> Seq<
    (Seq<char>, Seq<char>),
>
    decreases fields, 1int, fields.len() - j,
    when 0 <= j
{
    if j >= fields.len() {
        Seq::empty()
    } else {
        flatten_value(child_prefix(prefix, fields[j].key@), fields[j].value) + flatten_fields(
            prefix,
            fields,
            j + 1,
        )
    }
}

/// The key path of a field: the parent path and the field's key joined with
/// a dot, or the key alone at the root.
pub open spec fn child_prefix(prefix: Seq<char>, key: Seq<char>) -> Seq<char> {
    if prefix.len() == 0 {
        key
    } else {
        prefix + "."@ + key
    }
}

/// Builds the translation table of a nested configuration value.
///
/// The value must be an object: a translation file whose root is anything
/// else is malformed and rejected before this point.
pub fn init_lang(v: &ConfigValue) -> (r: TransMap)
    requires
        v matches ConfigValue::Object(_),
    ensures
        pairs_view(r.entries@) == flatten_value(Seq::<char>::empty(), *v),
{
    let mut collection = TransMap::new();
    let prefix: Vec<char> = Vec::new();
    init_lang_parts(&prefix, v, &mut collection);
    proof {
        assert(pairs_view(collection.entries@) =~= flatten_value(Seq::<char>::empty(), *v));
    }
    collection
}

/// Walks one value, appending its entries to the table.
fn init_lang_parts(prefix: &Vec<char>, v: &ConfigValue, out: &mut TransMap)
    ensures
        pairs_view(final(out).entries@) == pairs_view(old(out).entries@) + flatten_value(
            prefix@,
            *v,
        ),
    decreases cv_size(*v),
{
    let ghost base = pairs_view(old(out).entries@);
    match v {
        ConfigValue::Text(s) => {
            let entry = (copy_text(prefix), copy_text(s));
            out.entries.push(entry);
            proof {
                assert(pairs_view(out.entries@) =~= base + flatten_value(prefix@, *v));
            }
        },
        ConfigValue::OtherVal => {
            proof {
                assert(pairs_view(out.entries@) =~= base + flatten_value(prefix@, *v));
            }
        },
        ConfigValue::Object(fields) => {
            let mut j: usize = 0;
            while j < fields.len()
                invariant
                    *v == ConfigValue::Object(*fields),
                    base + flatten_fields(prefix@, *fields, 0) =~= pairs_view(out.entries@)
                        + flatten_fields(prefix@, *fields, j as int),
                decreases fields.len() - j,
            {
                let key = &fields[j].key;
                let val = &fields[j].value;
                let mut sub_prefix = copy_text(prefix);
                if prefix.len() > 0 {
                    sub_prefix.push('.');
                }
                proof {
                    reveal_strlit(".");
                    if prefix@.len() == 0 {
                        assert(sub_prefix@ =~= key@.take(0));
                    } else {
                        assert(sub_prefix@ =~= prefix@ + "."@ + key@.take(0));
                    }
                }
                let mut k: usize = 0;
                while k < key.len()
                    invariant
                        k <= key.len(),
                        sub_prefix@ == if prefix@.len() == 0 {
                            key@.take(k as int)
                        } else {
                            prefix@ + "."@ + key@.take(k as int)
                        },
                    decreases key.len() - k,
                {
                    sub_prefix.push(key[k]);
                    proof {
                        assert(key@.take(k as int).push(key@[k as int]) =~= key@.take(k as int + 1));
                        if prefix@.len() > 0 {
                            assert((prefix@ + "."@ + key@.take(k as int)).push(key@[k as int]) =~= prefix@
                                + "."@ + key@.take(k as int + 1));
                        }
                    }
                    k = k + 1;
                }
                proof {
                    assert(key@.take(key@.len() as int) =~= key@);
                    assert(sub_prefix@ == child_prefix(prefix@, key@));
                    assert(cv_size(*v) == fields_size(*fields, 0) + 1);
                    lemma_field_size(*fields, 0, j as int);
                    assert(cv_size(*val) < cv_size(*v));
                }
                let ghost before = pairs_view(out.entries@);
                init_lang_parts(&sub_prefix, val, out);
                proof {
                    assert(flatten_fields(prefix@, *fields, j as int) == flatten_value(
                        child_prefix(prefix@, fields@[j as int].key@),
                        fields@[j as int].value,
                    ) + flatten_fields(prefix@, *fields, j as int + 1));
                    assert(base + flatten_fields(prefix@, *fields, 0) =~= pairs_view(out.entries@)
                        + flatten_fields(prefix@, *fields, j as int + 1));
                }
                j = j + 1;
            }
            proof {
                assert(flatten_fields(prefix@, *fields, fields@.len() as int) =~= Seq::<
                    (Seq<char>, Seq<char>),
                >::empty());
                assert(pairs_view(out.entries@) =~= base + flatten_value(prefix@, *v));
            }
        },
    }
}

/// The locale state and the per-locale translation tables.
#[derive(Clone, Debug, PartialEq)]
pub struct Translation {
    pub de: TransMap,
    pub en: TransMap,
    pub locale: SupportedLang,
}

/// What a translation lookup answers: the key in the table of the current
/// locale.
pub open spec fn trans_lookup(t: Translation, key: Seq<char>) -> Option<Seq<char>> {
    let m = if t.locale == SupportedLang::De {
        t.de
    } else {
        t.en
    };
    if m@.contains_key(key) {
        Some(m@[key])
    } else {
        None
    }
}

impl Translation {
    /// A translation state over the two tables, starting in English.
    pub fn new(de: TransMap, en: TransMap) -> (r: Translation)
        ensures
            r.de == de,
            r.en == en,
            r.locale == SupportedLang::En,
    {
        Translation { de, en, locale: SupportedLang::En }
    }

    /// The table of one locale.
    pub fn get_translation_map(&self, lang: SupportedLang) -> (r: &TransMap)
        ensures
            lang == SupportedLang::De ==> r == &self.de,
            lang == SupportedLang::En ==> r == &self.en,
    {
        match lang {
            SupportedLang::De => &self.de,
            SupportedLang::En => &self.en,
        }
    }

    /// The locale lookups currently go through.
    pub fn get_current_locale(&self) -> (r: SupportedLang)
        ensures
            r == self.locale,
    {
        self.locale
    }

    /// Looks a key up in the current locale's table.
    pub fn get_translation(&self, key: &Vec<char>) -> (r: Option<&Vec<char>>)
        ensures
            match r {
                Some(v) => trans_lookup(*self, key@) == Some(v@),
                None => trans_lookup(*self, key@) is None,
            },
    {
        let lang = self.get_current_locale();
        self.get_translation_map(lang).get(key)
    }

    /// Resolves a language tag and switches the locale to it; an unsupported
    /// tag falls back to English.
    pub fn configure(&mut self, lang_tag: &Vec<char>)
        ensures
            final(self).locale == resolved_lang(lang_tag@),
            final(self).de == old(self).de,
            final(self).en == old(self).en,
    {
        let is_de = if lang_tag.len() == 2 {
            let de_tag = lang_tag[0] == 'd' && lang_tag[1] == 'e';
            proof {
                reveal_strlit("de");
                if de_tag {
                    assert(lang_tag@ =~= "de"@);
                }
            }
            de_tag
        } else if lang_tag.len() >= 3 {
            let de_dash = lang_tag[0] == 'd' && lang_tag[1] == 'e' && lang_tag[2] == '-';
            proof {
                reveal_strlit("de-");
                reveal_strlit("de");
                if de_dash {
                    assert(lang_tag@.take(3) =~= "de-"@);
                } else {
                    assert(lang_tag@.take(3) != "de-"@) by {
                        if lang_tag@.take(3) == "de-"@ {
                            assert(lang_tag@.take(3)[0] == 'd');
                            assert(lang_tag@.take(3)[1] == 'e');
                            assert(lang_tag@.take(3)[2] == '-');
                        }
                    };
                }
                assert(lang_tag@.len() != 2);
            }
            de_dash
        } else {
            proof {
                reveal_strlit("de");
            }
            false
        };
        if is_de {
            self.locale = SupportedLang::De;
        } else {
            self.locale = SupportedLang::En;
        }
    }
}

} // verus!
