//! Metadata checks for data-transformation projects.
//!
//! The crate turns the text of transformation files and the contents of schema
//! documents into partial declarations, reconciles both kinds into one canonical
//! record per resource, and evaluates a fixed rule set against every record.

pub mod name_map;
pub mod parser;
pub mod rules;
pub mod scoring;
pub mod text;
pub mod types;

pub use crate::scoring::AnalysisReport;

use vstd::prelude::*;
use crate::parser::yaml::SchemaFile;
use crate::parser::{canonical_records, schema_file_views, sql_file_views, DbtProjectParser};
use crate::rules::engine::{check_resources, lemma_project_findings_len, project_findings};
use crate::rules::registry::RuleId;
use crate::scoring::{assemble_report, report_of, ReportView};

verus! {

/// The analyzer of a project: it goes from the files of the project to the
/// report on it.
#[derive(Debug, Clone)]
pub struct DbtProjectAnalyzer {
    project_path: String,
}

/// The report on the project at `project_path` with the given files: the
/// findings of every rule on every canonical record, and the score that they
/// leave.
pub open spec fn analysis(
    project_path: Seq<char>,
    sql_files: Seq<(Seq<char>, Seq<char>)>,
    schema_files: Seq<(Seq<char>, SchemaFile)>,
) -> ReportView {
    let records = canonical_records(sql_files, schema_files);
    report_of(
        project_path,
        project_findings(RuleId::every(), records),
        records.len() * RuleId::every().len(),
    )
}

impl DbtProjectAnalyzer {
    /// The path of the project that the analyzer was made for.
    pub closed spec fn path(&self) -> Seq<char> {
        self.project_path@
    }

    /// An analyzer for the project at `project_path`.
    pub fn new(project_path: String) -> (analyzer: DbtProjectAnalyzer)
        ensures
            analyzer.path() == project_path@,
    {
        DbtProjectAnalyzer { project_path }
    }

    /// The path of the project.
    pub fn project_path(&self) -> (path: &str)
        ensures
            path@ == self.path(),
    {
        self.project_path.as_str()
    }

    /// The report on the project, from its transformation files, given by
    /// path and text, and its schema files, given by path and document. Every
    /// project has a report: the analysis does not fail.
    pub fn analyze(
        &self,
        sql_files: &Vec<(String, String)>,
        schema_files: &Vec<(String, SchemaFile)>,
    ) -> (report: Result<AnalysisReport, String>)
        ensures
            report is Ok,
            report.unwrap()@ == analysis(
                self.path(),
                sql_file_views(sql_files@),
                schema_file_views(schema_files@),
            ),
    {
        let parser = DbtProjectParser::new(self.project_path.clone());
        let records = parser.parse_project(sql_files, schema_files);
        let rules = RuleId::all();
        let findings = check_resources(&rules, &records);
        let evaluations: u128 = (records.len() as u128) * 4;
        proof {
            let views = canonical_records(
                sql_file_views(sql_files@),
                schema_file_views(schema_files@),
            );
            lemma_project_findings_len(rules@, views);
        }
        Ok(assemble_report(self.project_path.as_str(), findings, evaluations))
    }
}

} // verus!
