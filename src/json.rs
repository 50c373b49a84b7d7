//! A generic structured value (JSON) and its obfuscation walker.
use vstd::prelude::*;

use crate::obfuscation::{obfuscated_text, random_char, text_obfuscation, codec_allows, CharactersMapper, ObfuscatorConfig};

verus! {

/// A structured value: scalars, ordered sequences, and mappings from keys to
/// values that keep the order of their keys.
pub enum JsonValue {
    Null,
    Bool(bool),
    /// A number, held as its literal text.
    Number(String),
    String(String),
    Array(Vec<JsonValue>),
    Object(Vec<(String, JsonValue)>),
}

/// The keys of a mapping are pairwise distinct.
pub open spec fn keys_unique(entries: Seq<(String, JsonValue)>) -> bool {
    forall|i: int, j: int|
        0 <= i < entries.len() && 0 <= j < entries.len() && i != j ==> entries[i].0@
            != entries[j].0@
}

/// `b` is an obfuscation of `a`: every string leaf is obfuscated in full,
/// keys and every other scalar are kept, and the shape is unchanged.
pub open spec fn json_obfuscation(ms: Seq<CharactersMapper>, a: JsonValue, b: JsonValue) -> bool
    decreases a,
{
    match a {
        JsonValue::String(s) => match b {
            JsonValue::String(t) => text_obfuscation(ms, s@, t@),
            _ => false,
        },
        JsonValue::Array(xs) => match b {
            JsonValue::Array(ys) => ys@.len() == xs@.len() && forall|i: int|
                0 <= i < xs@.len() ==> json_obfuscation(ms, #[trigger] xs@[i], ys@[i]),
            _ => false,
        },
        JsonValue::Object(es) => match b {
            JsonValue::Object(fs) => fs@.len() == es@.len() && forall|i: int|
                0 <= i < es@.len() ==> fs@[i].0@ == (#[trigger] es@[i]).0@ && json_obfuscation(
                    ms,
                    es@[i].1,
                    fs@[i].1,
                ),
            _ => false,
        },
        _ => b == a,
    }
}

/// Obfuscation in place and by copy, for every kind of value the walkers
/// rewrite. `obfuscation_of(ms, a, b)` says that `b` may result from `a`.
pub trait Obfuscator: Sized {
    spec fn obfuscation_of(ms: Seq<CharactersMapper>, before: Self, after: Self) -> bool;

    fn obfuscated(&self, config: &ObfuscatorConfig) -> (r: Self)
        ensures
            Self::obfuscation_of(config.mappers@, *self, r),
    ;

    fn obfuscate(&mut self, config: &ObfuscatorConfig)
        ensures
            Self::obfuscation_of(config.mappers@, *old(self), *final(self)),
    ;
}

impl Obfuscator for char {
    open spec fn obfuscation_of(ms: Seq<CharactersMapper>, before: char, after: char) -> bool {
        codec_allows(ms, before, after)
    }

    fn obfuscated(&self, config: &ObfuscatorConfig) -> (r: char) {
        random_char(config, *self)
    }

    fn obfuscate(&mut self, config: &ObfuscatorConfig) {
        *self = random_char(config, *self);
    }
}

impl Obfuscator for String {
    open spec fn obfuscation_of(ms: Seq<CharactersMapper>, before: String, after: String) -> bool {
        text_obfuscation(ms, before@, after@)
    }

    fn obfuscated(&self, config: &ObfuscatorConfig) -> (r: String) {
        obfuscated_text(config, self.as_str())
    }

    fn obfuscate(&mut self, config: &ObfuscatorConfig) {
        *self = obfuscated_text(config, self.as_str());
    }
}

impl Obfuscator for JsonValue {
    open spec fn obfuscation_of(ms: Seq<CharactersMapper>, before: JsonValue, after: JsonValue) -> bool {
        json_obfuscation(ms, before, after)
    }

    fn obfuscated(&self, config: &ObfuscatorConfig) -> (r: JsonValue)
        decreases self,
    {
        match self {
            JsonValue::String(s) => JsonValue::String(obfuscated_text(config, s.as_str())),
            JsonValue::Array(xs) => {
                let mut ys: Vec<JsonValue> = Vec::new();
                let mut i: usize = 0;
                while i < xs.len()
                    invariant
                        *self == JsonValue::Array(*xs),
                        i <= xs@.len(),
                        ys@.len() == i,
                        forall|j: int| 0 <= j < i ==> json_obfuscation(config.mappers@, #[trigger] xs@[j], ys@[j]),
                    decreases xs@.len() - i,
                {
                    proof {
                        assert(decreases_to!(*self => (*self)->Array_0));
                        assert(decreases_to!(*xs => xs@));
                        assert(decreases_to!(xs@ => xs@[i as int]));
                    }
                    let y = xs[i].obfuscated(config);
                    ys.push(y);
                    i = i + 1;
                }
                JsonValue::Array(ys)
            },
            JsonValue::Object(es) => {
                let mut fs: Vec<(String, JsonValue)> = Vec::new();
                let mut i: usize = 0;
                while i < es.len()
                    invariant
                        *self == JsonValue::Object(*es),
                        i <= es@.len(),
                        fs@.len() == i,
                        forall|j: int| 0 <= j < i ==> fs@[j].0@ == (#[trigger] es@[j]).0@ && json_obfuscation(config.mappers@, es@[j].1, fs@[j].1),
                    decreases es@.len() - i,
                {
                    proof {
                        assert(decreases_to!(*self => (*self)->Object_0));
                        assert(decreases_to!(*es => es@));
                        assert(decreases_to!(es@ => es@[i as int]));
                        assert(decreases_to!(es@[i as int] => es@[i as int].1));
                    }
                    let v = es[i].1.obfuscated(config);
                    fs.push((es[i].0.clone(), v));
                    i = i + 1;
                }
                JsonValue::Object(fs)
            },
            JsonValue::Null => JsonValue::Null,
            JsonValue::Bool(b) => JsonValue::Bool(*b),
            JsonValue::Number(n) => JsonValue::Number(n.clone()),
        }
    }

    fn obfuscate(&mut self, config: &ObfuscatorConfig) {
        *self = self.obfuscated(config);
    }
}

/// Obfuscates every string leaf of a mapping's values, keys untouched.
pub fn obfuscate_map(entries: &mut Vec<(String, JsonValue)>, config: &ObfuscatorConfig)
    ensures
        final(entries)@.len() == old(entries)@.len(),
        forall|i: int|
            0 <= i < old(entries)@.len() ==> (#[trigger] final(entries)@[i]).0@ == old(
                entries,
            )@[i].0@ && json_obfuscation(config.mappers@, old(entries)@[i].1, final(entries)@[i].1),
{
    let mut fs: Vec<(String, JsonValue)> = Vec::new();
    let mut i: usize = 0;
    while i < entries.len()
        invariant
            i <= entries@.len(),
            fs@.len() == i,
            forall|j: int|
                0 <= j < i ==> fs@[j].0@ == (#[trigger] entries@[j]).0@ && json_obfuscation(
                    config.mappers@,
                    entries@[j].1,
                    fs@[j].1,
                ),
        decreases entries@.len() - i,
    {
        let v = entries[i].1.obfuscated(config);
        fs.push((entries[i].0.clone(), v));
        i = i + 1;
    }
    *entries = fs;
}

} // verus!
