use vstd::prelude::*;
use crate::agent_locale::ToolChatMessage;
use crate::paths::{join_path, joined, requirement_dir};
use crate::text::{sort_strings, strings_sorted, trim, trimmed};

verus! {

/// Directory of a requirement package that holds the release.
pub const RELEASE_DIR: &'static str = "release";

/// Directory under the release directory that holds the build outputs.
pub const ARTIFACTS_DIR: &'static str = "artifacts";

/// The packaging summary under the release directory.
pub const OUTPUT_FILE: &'static str = "output.md";

/// The start/run log under the release directory.
pub const RUN_FILE: &'static str = "run.md";

/// What the release phase of a requirement has produced.
#[derive(Debug)]
pub struct RequirementReleaseWire {
    pub requirement_id: String,
    pub output: Option<String>,
    pub run_log: Option<String>,
    pub artifacts: Vec<String>,
}

/// A report file as shown: absent when it is missing or holds only whitespace.
pub open spec fn shown_report(content: Option<String>) -> Option<String> {
    match content {
        Some(c) => if trim(c@).len() == 0 { None } else { Some(c) },
        None => None,
    }
}

/// The report file `content` (none when the file does not exist) as shown.
pub fn report_text(content: Option<String>) -> (r: Option<String>)
    ensures
        r == shown_report(content),
{
    match content {
        None => None,
        Some(c) => {
            let t = trimmed(c.as_str());
            if t.as_str().is_empty() {
                None
            } else {
                Some(c)
            }
        },
    }
}

/// The release of requirement `id`, from the packaging summary and run log
/// (none where the file does not exist) and the names of the artifacts.
pub fn build_release_wire(id: &str, output: Option<String>, run_log: Option<String>, artifacts: Vec<String>) -> (r: RequirementReleaseWire)
    ensures
        r.requirement_id@ == id@,
        r.output == shown_report(output),
        r.run_log == shown_report(run_log),
        strings_sorted(r.artifacts@),
        r.artifacts@.to_multiset() == artifacts@.to_multiset(),
{
    RequirementReleaseWire {
        requirement_id: id.to_string(),
        output: report_text(output),
        run_log: report_text(run_log),
        artifacts: sort_strings(&artifacts),
    }
}

/// The release directory of requirement `id` in `workspace`.
pub open spec fn release_dir_of(workspace: Seq<char>, id: Seq<char>) -> Seq<char> {
    joined(joined(joined(workspace, "requirements"@), id), "release"@)
}

/// The release directory of requirement `id` in `workspace`.
pub fn release_dir(workspace: &str, id: &str) -> (r: String)
    ensures
        r@ == release_dir_of(workspace@, id@),
{
    let dir = requirement_dir(workspace, id);
    join_path(dir.as_str(), RELEASE_DIR)
}

/// The packaging instructions before the artifacts directory.
pub const PACKAGE_HEAD: &'static str = "You are an operations engineer packaging the application for release.\n\n## Working directory\nYour working directory is the product git repository (main repo).\n\n## Task\n1. Detect the project's build/packaging tooling (for example npm scripts, cargo, make).\n2. Build/package a release artifact for the application. Prefer the project's documented release/build command.\n3. Copy the resulting artifact(s) into `";

/// The packaging instructions between the artifacts directory and the summary file.
pub const PACKAGE_MID: &'static str = "` (create the directory if needed).\n4. Write a packaging summary to `";

/// The packaging instructions after the summary file.
pub const PACKAGE_TAIL: &'static str = "` describing: the commands you ran, where artifacts were placed, the build result (success/failure), and how to install/run the package.\n5. Reply briefly with the outcome.\n\nUse absolute paths exactly as given above when writing outside the repository. Do not only describe intent — perform the build and write the files.";

/// The start instructions before the run log file.
pub const START_HEAD: &'static str = "You are an operations engineer starting the application to verify it runs.\n\n## Working directory\nYour working directory is the product git repository (main repo).\n\n## Task\n1. Detect how the application is started (for example a dev/start script or a built binary).\n2. Start the application in a way that lets you confirm it boots successfully (run a short-lived smoke check; do NOT block forever — stop the process after confirming startup).\n3. Write a run log to `";

/// The start instructions after the run log file.
pub const START_TAIL: &'static str = "` describing: the start command, startup output, whether it started successfully, and any errors.\n4. Reply briefly with whether the application started successfully.\n\nUse the absolute path exactly as given above. Do not only describe intent — actually attempt to start the app and write the log.";

/// The message that has an operations agent package requirement
/// `requirement_id`'s application, naming the artifacts directory and the
/// summary file of its release.
pub fn build_package_messages(workspace: &str, requirement_id: &str) -> (r: Vec<ToolChatMessage>)
    ensures
        r@.len() == 1,
        r@[0].role@ == "user"@,
        r@[0].content@ == PACKAGE_HEAD@ + joined(release_dir_of(workspace@, requirement_id@), "artifacts"@) + PACKAGE_MID@
            + joined(release_dir_of(workspace@, requirement_id@), "output.md"@) + PACKAGE_TAIL@,
{
    let rel = release_dir(workspace, requirement_id);
    let artifacts = join_path(rel.as_str(), ARTIFACTS_DIR);
    let output = join_path(rel.as_str(), OUTPUT_FILE);
    let mut prompt = PACKAGE_HEAD.to_string();
    prompt.append(artifacts.as_str());
    prompt.append(PACKAGE_MID);
    prompt.append(output.as_str());
    prompt.append(PACKAGE_TAIL);
    let mut out: Vec<ToolChatMessage> = Vec::new();
    out.push(ToolChatMessage { role: "user".to_string(), content: prompt });
    out
}

/// The message that has an operations agent start requirement
/// `requirement_id`'s application, naming the run log file of its release.
pub fn build_start_messages(workspace: &str, requirement_id: &str) -> (r: Vec<ToolChatMessage>)
    ensures
        r@.len() == 1,
        r@[0].role@ == "user"@,
        r@[0].content@ == START_HEAD@ + joined(release_dir_of(workspace@, requirement_id@), "run.md"@) + START_TAIL@,
{
    let rel = release_dir(workspace, requirement_id);
    let run = join_path(rel.as_str(), RUN_FILE);
    let mut prompt = START_HEAD.to_string();
    prompt.append(run.as_str());
    prompt.append(START_TAIL);
    let mut out: Vec<ToolChatMessage> = Vec::new();
    out.push(ToolChatMessage { role: "user".to_string(), content: prompt });
    out
}

} // verus!
