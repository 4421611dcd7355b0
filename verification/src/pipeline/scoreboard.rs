//! The scoreboard that records grades.
use vstd::prelude::*;
use vstd::string::*;

use crate::pipeline::judge::{arg_texts, repo_name, GitTarget, Invocation};

verus! {

/// Where grades and the commits they were given for are recorded.
pub struct Scoreboard {
    pub repo: String,
    pub scorefile: String,
    pub commitfile: String,
}

impl Scoreboard {
    /// The scoreboard script's command line that records `grade` (already
    /// written with one decimal) for `target` on stage `stage_name`.
    pub fn update_command(&self, stage_name: &str, target: &GitTarget, grade: &str) -> (r: Invocation)
        ensures
            r.program@ == "./scripts/update_scoreboard.sh"@,
            arg_texts(r.args@) == seq![
                self.scorefile@,
                self.repo@,
                repo_name(target.url@),
                grade@,
                stage_name@,
                self.commitfile@,
                target.commit@,
            ],
    {
        let mut args: Vec<String> = Vec::new();
        args.push(self.scorefile.clone());
        args.push(self.repo.clone());
        args.push(target.get_name().to_owned());
        args.push(grade.to_owned());
        args.push(stage_name.to_owned());
        args.push(self.commitfile.clone());
        args.push(target.commit.clone());
        let r = Invocation { program: "./scripts/update_scoreboard.sh".to_owned(), args };
        assert(arg_texts(r.args@) =~= seq![
            self.scorefile@,
            self.repo@,
            repo_name(target.url@),
            grade@,
            stage_name@,
            self.commitfile@,
            target.commit@,
        ]);
        r
    }
}

} // verus!
