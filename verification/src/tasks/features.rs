//! Cargo feature-selection arguments shared by checks and coverage.
use vstd::prelude::*;

use crate::tasks::command::texts;
use crate::text::{chars_of, owned, push_str, string_from_chars, trim, trim_chars};

verus! {

/// Cargo feature selection: all features, or the default features (unless
/// disabled) plus the listed ones.
#[derive(Clone, Debug)]
pub struct FeatureArgs {
    pub all_features: bool,
    pub features: Vec<String>,
    pub no_default_features: bool,
}

impl Default for FeatureArgs {
    fn default() -> (r: Self)
        ensures
            !r.all_features && r.features@.len() == 0 && !r.no_default_features,
    {
        FeatureArgs { all_features: false, features: Vec::new(), no_default_features: false }
    }
}

/// The items joined by commas.
pub open spec fn comma_joined(items: Seq<Seq<char>>) -> Seq<char>
    decreases items.len(),
{
    if items.len() == 0 {
        seq![]
    } else if items.len() == 1 {
        items[0]
    } else {
        comma_joined(items.drop_last()) + ","@ + items.last()
    }
}

/// The Cargo arguments of a selection; with no option set, all features.
pub open spec fn cargo_feature_args(all: bool, features: Seq<Seq<char>>, no_default: bool) -> Seq<Seq<char>> {
    if !all && features.len() == 0 && !no_default {
        seq!["--all-features"@]
    } else {
        (if all {
            seq!["--all-features"@]
        } else {
            seq![]
        }) + (if no_default {
            seq!["--no-default-features"@]
        } else {
            seq![]
        }) + (if features.len() > 0 {
            seq!["--features"@, comma_joined(features)]
        } else {
            seq![]
        })
    }
}

impl FeatureArgs {
    /// The Cargo arguments of this selection.
    pub fn cargo_args(&self) -> (r: Vec<String>)
        ensures
            texts(r@) == cargo_feature_args(self.all_features, texts(self.features@), self.no_default_features),
    {
        let mut args: Vec<String> = Vec::new();
        if !self.all_features && self.features.len() == 0 && !self.no_default_features {
            args.push(owned("--all-features"));
            assert(texts(args@) =~= seq!["--all-features"@]);
            return args;
        }
        if self.all_features {
            args.push(owned("--all-features"));
        }
        if self.no_default_features {
            args.push(owned("--no-default-features"));
        }
        let ghost before = texts(args@);
        assert(before =~= (if self.all_features {
            seq!["--all-features"@]
        } else {
            Seq::<Seq<char>>::empty()
        }) + (if self.no_default_features {
            seq!["--no-default-features"@]
        } else {
            Seq::<Seq<char>>::empty()
        }));
        if self.features.len() > 0 {
            args.push(owned("--features"));
            args.push(join_commas(&self.features));
            assert(texts(args@) =~= before + seq!["--features"@, comma_joined(texts(self.features@))]);
        } else {
            assert(texts(args@) =~= before + Seq::<Seq<char>>::empty());
        }
        args
    }
}

/// The items joined by commas.
pub fn join_commas(items: &Vec<String>) -> (r: String)
    ensures
        r@ == comma_joined(texts(items@)),
{
    let mut r = String::new();
    let mut k: usize = 0;
    while k < items.len()
        invariant
            k <= items.len(),
            r@ == comma_joined(texts(items@).take(k as int)),
        decreases items.len() - k,
    {
        if k > 0 {
            push_str(&mut r, ",");
        }
        push_str(&mut r, items[k].as_str());
        proof {
            let t = texts(items@).take(k + 1);
            assert(t.drop_last() == texts(items@).take(k as int));
            assert(t.last() == items@[k as int]@);
            if k == 0 {
                assert(texts(items@).take(0) == Seq::<Seq<char>>::empty());
            }
        }
        k = k + 1;
    }
    assert(texts(items@).take(items.len() as int) == texts(items@));
    r
}

/// A feature name, trimmed; blank names are refused.
pub fn parse_nonempty(value: &str) -> (r: Result<String, String>)
    ensures
        match r {
            Ok(v) => trim(value@).len() > 0 && v@ == trim(value@),
            Err(e) => trim(value@).len() == 0 && e@ == "feature names cannot be empty"@,
        },
{
    let chars = chars_of(value);
    let t = trim_chars(&chars);
    if t.len() == 0 {
        Err(owned("feature names cannot be empty"))
    } else {
        Ok(string_from_chars(t.as_slice()))
    }
}

} // verus!
