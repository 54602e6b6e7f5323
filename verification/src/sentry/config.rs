//! The settings by which a sentry accepts channels.

use crate::primitives::big_num::BigNum;
use crate::sentry::asset::Asset;
use vstd::prelude::*;
use vstd::string::*;

verus! {

/// The settings as plain values.
pub struct ConfigModel {
    pub identity: Seq<char>,
    pub validators_whitelist: Seq<Seq<char>>,
    pub creators_whitelist: Seq<Seq<char>>,
    pub assets_whitelist: Seq<Seq<char>>,
    pub minimal_deposit: nat,
    pub minimal_fee: nat,
}

/// The characters of each string.
pub open spec fn texts(strings: Seq<String>) -> Seq<Seq<char>> {
    strings.map_values(|s: String| s@)
}

/// The characters of each string slice.
pub open spec fn slice_texts(strings: Seq<&str>) -> Seq<Seq<char>> {
    strings.map_values(|s: &str| s@)
}

/// The name of each asset.
pub open spec fn asset_names(assets: Seq<Asset>) -> Seq<Seq<char>> {
    assets.map_values(|a: Asset| a@)
}

/// Who the sentry is, whom it accepts as validators and creators, which
/// assets it takes, and the least deposit and fee it asks for.
#[derive(Debug)]
pub struct Config {
    pub identity: String,
    pub validators_whitelist: Vec<String>,
    pub creators_whitelist: Vec<String>,
    pub assets_whitelist: Vec<Asset>,
    pub minimal_deposit: BigNum,
    pub minimal_fee: BigNum,
}

impl View for Config {
    type V = ConfigModel;

    open spec fn view(&self) -> ConfigModel {
        ConfigModel {
            identity: self.identity@,
            validators_whitelist: texts(self.validators_whitelist@),
            creators_whitelist: texts(self.creators_whitelist@),
            assets_whitelist: asset_names(self.assets_whitelist@),
            minimal_deposit: self.minimal_deposit@,
            minimal_fee: self.minimal_fee@,
        }
    }
}

/// Builds a [`Config`] step by step.
#[derive(Debug)]
pub struct ConfigBuilder {
    identity: String,
    validators_whitelist: Vec<String>,
    creators_whitelist: Vec<String>,
    assets_whitelist: Vec<Asset>,
    minimal_deposit: BigNum,
    minimal_fee: BigNum,
}

impl View for ConfigBuilder {
    type V = ConfigModel;

    closed spec fn view(&self) -> ConfigModel {
        ConfigModel {
            identity: self.identity@,
            validators_whitelist: texts(self.validators_whitelist@),
            creators_whitelist: texts(self.creators_whitelist@),
            assets_whitelist: asset_names(self.assets_whitelist@),
            minimal_deposit: self.minimal_deposit@,
            minimal_fee: self.minimal_fee@,
        }
    }
}

/// Owned copies of string slices.
pub fn to_strings(slices: &[&str]) -> (r: Vec<String>)
    ensures
        texts(r@) == slice_texts(slices@),
{
    let n: usize = slices.len();
    let mut out: Vec<String> = Vec::new();
    let mut i: usize = 0;
    while i < n
        invariant
            n == slices@.len(),
            i <= n,
            out@.len() == i,
            forall|j: int| 0 <= j < i ==> (#[trigger] out@[j])@ == slices@[j]@,
        decreases n - i,
    {
        out.push(String::from_str(slices[i]));
        i = i + 1;
    }
    assert(texts(out@) =~= slice_texts(slices@));
    out
}

/// Copies of assets.
pub fn to_assets(assets: &[Asset]) -> (r: Vec<Asset>)
    ensures
        asset_names(r@) == asset_names(assets@),
{
    let n: usize = assets.len();
    let mut out: Vec<Asset> = Vec::new();
    let mut i: usize = 0;
    while i < n
        invariant
            n == assets@.len(),
            i <= n,
            out@.len() == i,
            forall|j: int| 0 <= j < i ==> (#[trigger] out@[j])@ == assets@[j]@,
        decreases n - i,
    {
        out.push(assets[i].clone());
        i = i + 1;
    }
    assert(asset_names(out@) =~= asset_names(assets@));
    out
}

impl ConfigBuilder {
    /// A builder for the sentry of `identity`: nobody whitelisted, nothing
    /// asked for.
    pub fn new(identity: &str) -> (r: ConfigBuilder)
        ensures
            r@ == (ConfigModel {
                identity: identity@,
                validators_whitelist: Seq::empty(),
                creators_whitelist: Seq::empty(),
                assets_whitelist: Seq::empty(),
                minimal_deposit: 0,
                minimal_fee: 0,
            }),
    {
        let r = ConfigBuilder {
            identity: String::from_str(identity),
            validators_whitelist: Vec::new(),
            creators_whitelist: Vec::new(),
            assets_whitelist: Vec::new(),
            minimal_deposit: BigNum::zero(),
            minimal_fee: BigNum::zero(),
        };
        assert(texts(r.validators_whitelist@) =~= Seq::empty());
        assert(texts(r.creators_whitelist@) =~= Seq::empty());
        assert(asset_names(r.assets_whitelist@) =~= Seq::empty());
        r
    }

    /// Replaces the validators that the sentry accepts.
    pub fn set_validators_whitelist(self, validators: &[&str]) -> (r: ConfigBuilder)
        ensures
            r@ == (ConfigModel { validators_whitelist: slice_texts(validators@), ..self@ }),
    {
        let mut builder = self;
        builder.validators_whitelist = to_strings(validators);
        builder
    }

    /// Replaces the creators that the sentry accepts.
    pub fn set_creators_whitelist(self, creators: &[&str]) -> (r: ConfigBuilder)
        ensures
            r@ == (ConfigModel { creators_whitelist: slice_texts(creators@), ..self@ }),
    {
        let mut builder = self;
        builder.creators_whitelist = to_strings(creators);
        builder
    }

    /// Replaces the assets that the sentry takes.
    pub fn set_assets_whitelist(self, assets: &[Asset]) -> (r: ConfigBuilder)
        ensures
            r@ == (ConfigModel { assets_whitelist: asset_names(assets@), ..self@ }),
    {
        let mut builder = self;
        builder.assets_whitelist = to_assets(assets);
        builder
    }

    /// Sets the least deposit that the sentry asks for.
    pub fn set_minimum_deposit(self, minimum: BigNum) -> (r: ConfigBuilder)
        ensures
            r@ == (ConfigModel { minimal_deposit: minimum@, ..self@ }),
    {
        let mut builder = self;
        builder.minimal_deposit = minimum;
        builder
    }

    /// Sets the least fee that the sentry asks for.
    pub fn set_minimum_fee(self, minimum: BigNum) -> (r: ConfigBuilder)
        ensures
            r@ == (ConfigModel { minimal_fee: minimum@, ..self@ }),
    {
        let mut builder = self;
        builder.minimal_fee = minimum;
        builder
    }

    /// The settings that were built.
    pub fn build(self) -> (r: Config)
        ensures
            r@ == self@,
    {
        Config {
            identity: self.identity,
            validators_whitelist: self.validators_whitelist,
            creators_whitelist: self.creators_whitelist,
            assets_whitelist: self.assets_whitelist,
            minimal_deposit: self.minimal_deposit,
            minimal_fee: self.minimal_fee,
        }
    }
}

} // verus!
