use vstd::prelude::*;

verus! {

/// The prompt a coding agent gets for a development task: the task's id,
/// title, requirement and branch (`unknown` when the task has none), its
/// description, and how to work.
pub fn build_dev_task_prompt(task_id: &str, title: &str, description: &str, branch: Option<&str>, requirement_id: &str) -> (r: String)
    ensures
        ({
            let b = match branch {
                Some(x) => x@,
                None => "unknown"@,
            };
            r@ == "You are working on a development task.\n\n## Task Information\n\n**Task ID:** "@ + task_id@
                + "\n**Task Title:** "@ + title@ + "\n**Requirement ID:** "@ + requirement_id@ + "\n**Feature Branch:** "@ + b
                + "\n\n## Task Description\n\n"@ + description@
                + "\n\n## Instructions\n\n1. Read and understand the task description above.\n2. Check out the feature branch `"@
                + b + "` if not already on it.\n3. Implement the required changes in the codebase.\n4. Ensure all changes are well-structured and follow existing code patterns.\n5. Commit your changes with a descriptive commit message.\n\n**Important:** All file operations must be performed relative to this repository root.\nDo not modify files outside of the intended scope of the task."@
        }),
{
    let b = match branch {
        Some(x) => x,
        None => "unknown",
    };
    let mut s = "You are working on a development task.\n\n## Task Information\n\n**Task ID:** ".to_owned();
    s.append(task_id);
    s.append("\n**Task Title:** ");
    s.append(title);
    s.append("\n**Requirement ID:** ");
    s.append(requirement_id);
    s.append("\n**Feature Branch:** ");
    s.append(b);
    s.append("\n\n## Task Description\n\n");
    s.append(description);
    s.append("\n\n## Instructions\n\n1. Read and understand the task description above.\n2. Check out the feature branch `");
    s.append(b);
    s.append("` if not already on it.\n3. Implement the required changes in the codebase.\n4. Ensure all changes are well-structured and follow existing code patterns.\n5. Commit your changes with a descriptive commit message.\n\n**Important:** All file operations must be performed relative to this repository root.\nDo not modify files outside of the intended scope of the task.");
    s
}

} // verus!
