//! The settings of the workflow.

use vstd::prelude::*;

use crate::text;
use crate::workflow::engine::{Job, JobView};

verus! {

/// The settings of the workflow.
#[derive(Debug)]
pub struct Config {
    pub model: String,
    pub api_key: String,
    pub llm_base_url: String,
    pub elsevier_api_key: Option<String>,
    pub out_dir: String,
    pub max_sources: usize,
    /// The bits of a single-precision number.
    pub temperature_bits: u32,
    pub llm_timeout_secs: u64,
}

/// The settings with their texts as sequences of characters.
pub struct ConfigView {
    pub model: Seq<char>,
    pub api_key: Seq<char>,
    pub llm_base_url: Seq<char>,
    pub elsevier_api_key: Option<Seq<char>>,
    pub out_dir: Seq<char>,
    pub max_sources: usize,
    pub temperature_bits: u32,
    pub llm_timeout_secs: u64,
}

impl View for Config {
    type V = ConfigView;

    open spec fn view(&self) -> ConfigView {
        ConfigView {
            model: self.model@,
            api_key: self.api_key@,
            llm_base_url: self.llm_base_url@,
            elsevier_api_key: text::option_view(self.elsevier_api_key),
            out_dir: self.out_dir@,
            max_sources: self.max_sources,
            temperature_bits: self.temperature_bits,
            llm_timeout_secs: self.llm_timeout_secs,
        }
    }
}

impl Config {
    /// What a run on a topic is about under these settings. Scopus is asked where there is
    /// a key for it.
    pub fn job(&self, topic: &str, slug: &str) -> (r: Job)
        ensures
            r@ == (JobView {
                topic: topic@,
                slug: slug@,
                out_dir: self@.out_dir,
                max_sources: self@.max_sources as nat,
                with_scopus: self@.elsevier_api_key is Some,
            }),
    {
        Job {
            topic: topic.to_owned(),
            slug: slug.to_owned(),
            out_dir: self.out_dir.clone(),
            max_sources: self.max_sources,
            with_scopus: self.elsevier_api_key.is_some(),
        }
    }
}

} // verus!
