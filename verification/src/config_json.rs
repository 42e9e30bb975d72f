//! The prune rules and the file they are kept in.

use std::path::PathBuf;
use vstd::prelude::*;
use vstd::string::StringExecFns;

verus! {

/// The globs that name what a search leaves out.
#[derive(Debug)]
pub struct ConfigJson {
    /// Folders that are not entered.
    pub folders_to_prune: Vec<String>,
    /// Files that are left out unless particular files were asked for.
    pub files_to_prune: Vec<String>,
}

/// The prune rules of an application, and where they were read from.
#[derive(Debug)]
pub struct AppConfig {
    pub app_name: String,
    pub config_path: PathBuf,
    pub config: ConfigJson,
}

/// `entries`, each behind four blanks.
pub open spec fn indented(entries: Seq<String>) -> Seq<Seq<char>> {
    Seq::new(entries.len(), |i: int| seq![' ', ' ', ' ', ' '] + entries[i]@)
}

/// The lines that show a configuration read from the file shown as
/// `path`.
pub open spec fn config_lines(config: &ConfigJson, path: Seq<char>) -> Seq<Seq<char>> {
    seq!["smart find configuration from "@ + path, "folders to prune:"@] + indented(
        config.folders_to_prune@,
    ) + seq!["files to prune:"@] + indented(config.files_to_prune@)
}

/// Appends each of `entries`, indented, to `out`.
fn push_indented(out: &mut Vec<String>, entries: &Vec<String>)
    ensures
        final(out)@.len() == old(out)@.len() + entries@.len(),
        forall|i: int| 0 <= i < old(out)@.len() ==> final(out)@[i] == old(out)@[i],
        forall|i: int|
            0 <= i < entries@.len() ==> (#[trigger] final(out)@[old(out)@.len() + i])@ == indented(
                entries@,
            )[i],
{
    let mut i: usize = 0;
    while i < entries.len()
        invariant
            i <= entries@.len(),
            out@.len() == old(out)@.len() + i,
            forall|k: int| 0 <= k < old(out)@.len() ==> out@[k] == old(out)@[k],
            forall|k: int|
                0 <= k < i ==> (#[trigger] out@[old(out)@.len() + k])@ == indented(entries@)[k],
        decreases entries@.len() - i,
    {
        let mut line = String::from_str("    ");
        proof {
            reveal_strlit("    ");
        }
        line.append(entries[i].as_str());
        out.push(line);
        i += 1;
    }
}

impl AppConfig {
    /// Puts together the rules of the application `app_name`, read from
    /// `config_path`.
    pub fn new(app_name: &str, config_path: PathBuf, config: ConfigJson) -> (cfg: AppConfig)
        ensures
            cfg.app_name@ == app_name@,
            cfg.config_path == config_path,
            cfg.config == config,
    {
        AppConfig { app_name: String::from_str(app_name), config_path, config }
    }

    /// The name of the file that holds the rules of the application
    /// `app_name`: that name with `.json` behind it.
    pub fn config_file_name(app_name: &str) -> (name: String)
        ensures
            name@ == app_name@ + ".json"@,
    {
        let mut name = String::from_str(app_name);
        name.append(".json");
        name
    }

    /// The path of the file the rules were read from.
    pub fn config_file_path(&self) -> (path: PathBuf)
        ensures
            path == self.config_path,
    {
        self.config_path.clone()
    }

    /// The lines that show the rules; `path` is the path of their file as
    /// it is shown.
    pub fn show_config(&self, path: &str) -> (lines: Vec<String>)
        ensures
            crate::grep_in_file::texts(lines@) == config_lines(&self.config, path@),
    {
        let mut lines: Vec<String> = Vec::new();
        let mut head = String::from_str("smart find configuration from ");
        head.append(path);
        lines.push(head);
        lines.push(String::from_str("folders to prune:"));
        push_indented(&mut lines, &self.config.folders_to_prune);
        lines.push(String::from_str("files to prune:"));
        push_indented(&mut lines, &self.config.files_to_prune);
        proof {
            let want = config_lines(&self.config, path@);
            let got = crate::grep_in_file::texts(lines@);
            let nf = self.config.folders_to_prune@.len() as int;
            assert forall|i: int| 0 <= i < got.len() implies got[i] == want[i] by {
                if 2 <= i < 2 + nf {
                    assert(got[i] == lines@[2 + (i - 2)]@);
                } else if i > 2 + nf {
                    assert(got[i] == lines@[(3 + nf) + (i - 3 - nf)]@);
                }
            }
        }
        lines
    }
}

} // verus!
