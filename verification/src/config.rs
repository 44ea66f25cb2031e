//! The settings a run is made with.

use vstd::prelude::*;

use crate::api::MetadataSourceKind;
use crate::outside_types::io_error_text;
use crate::text::{extend_str, string_of};

verus! {

/// All settings of a run.
#[derive(Debug, Clone)]
pub struct Config {
    pub inputs: Vec<String>,
    pub output: Option<String>,
    pub api_url: Option<String>,
    pub metadata_source: MetadataSourceKind,
    pub completed_directory: Option<String>,
    pub num_cpus: usize,
    pub log_level: String,
    pub path_format: String,
    pub dry_run: bool,
    pub metadata_id: Option<String>,
}

impl Config {
    /// A configuration with the given settings.
    pub fn new(
        inputs: Vec<String>,
        output: Option<String>,
        api_url: Option<String>,
        metadata_source: MetadataSourceKind,
        completed_directory: Option<String>,
        num_cpus: usize,
        log_level: String,
        path_format: String,
        dry_run: bool,
        metadata_id: Option<String>,
    ) -> (c: Config)
        ensures
            c.inputs == inputs,
            c.output == output,
            c.api_url == api_url,
            c.metadata_source == metadata_source,
            c.completed_directory == completed_directory,
            c.num_cpus == num_cpus,
            c.log_level == log_level,
            c.path_format == path_format,
            c.dry_run == dry_run,
            c.metadata_id == metadata_id,
    {
        Config {
            inputs,
            output,
            api_url,
            metadata_source,
            completed_directory,
            num_cpus,
            log_level,
            path_format,
            dry_run,
            metadata_id,
        }
    }

    /// Validates the configuration given what creating its directories gave
    /// (`None` where a directory was not created): there must be inputs, and
    /// each directory must have been created.
    pub fn validate_given(
        &self,
        output_created: Option<Result<(), std::io::Error>>,
        completed_created: Option<Result<(), std::io::Error>>,
    ) -> (r: Result<(), String>)
        ensures
            self.inputs@.len() == 0 ==> (r matches Err(m) && m@
                == "No input files or directories provided"@),
            self.inputs@.len() > 0 && (output_created matches Some(Err(_))) ==> (r matches Err(m)
                && exists|t: Seq<char>| m@ == "Output directory is not writable: "@ + t),
            self.inputs@.len() > 0 && !(output_created matches Some(Err(_)))
                && (completed_created matches Some(Err(_))) ==> (r matches Err(m) && exists|t: Seq<char>|
                m@ == "Completed directory is not writable: "@ + t),
            self.inputs@.len() > 0 && !(output_created matches Some(Err(_))) && !(
            completed_created matches Some(Err(_))) ==> r is Ok,
    {
        if self.inputs.len() == 0 {
            return Err("No input files or directories provided".to_owned());
        }
        match &output_created {
            Some(Err(e)) => {
                let mut out: Vec<char> = Vec::new();
                extend_str(&mut out, "Output directory is not writable: ");
                let t = io_error_text(e);
                extend_str(&mut out, t.as_str());
                return Err(string_of(out.as_slice()));
            },
            _ => {},
        }
        match &completed_created {
            Some(Err(e)) => {
                let mut out: Vec<char> = Vec::new();
                extend_str(&mut out, "Completed directory is not writable: ");
                let t = io_error_text(e);
                extend_str(&mut out, t.as_str());
                return Err(string_of(out.as_slice()));
            },
            _ => {},
        }
        Ok(())
    }
}

} // verus!
