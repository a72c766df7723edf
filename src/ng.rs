//! Arguments for the Angular CLI when it is run through this tool: commands
//! that name a registered library get the flags that suit linked builds.

use vstd::prelude::*;
use vstd::string::*;
use crate::config::{list_has, strings_view, Config};
use crate::error::SpineError;
use crate::text::{owned, str_eq};

verus! {

/// Runs Angular CLI commands with settings for linked libraries.
#[derive(Clone, Debug)]
pub struct NgProxy {
    pub spine_config: Config,
    pub workspace_root: String,
}

/// Angular CLI commands run with library context.
#[derive(Clone, Debug)]
pub enum NgCommands {
    /// Generates a schematic, in a library when one is named or detected.
    Generate { schematic: String, name: String, lib: Option<String>, args: Vec<String> },
}

/// `args` unchanged if it holds `flag`, else with `extra` appended.
pub open spec fn ensure_flag(args: Seq<Seq<char>>, flag: Seq<char>, extra: Seq<Seq<char>>) -> Seq<
    Seq<char>,
> {
    if args.contains(flag) {
        args
    } else {
        args + extra
    }
}

/// `ng build <lib>` for a registered library: production configuration
/// and source maps unless given.
pub open spec fn enhanced_build(m: Map<Seq<char>, crate::config::LinkView>, args: Seq<Seq<char>>) -> Seq<
    Seq<char>,
> {
    if args.len() > 1 && m.contains_key(args[1]) {
        ensure_flag(
            ensure_flag(args, "--configuration"@, seq!["--configuration"@, "production"@]),
            "--source-map"@,
            seq!["--source-map"@],
        )
    } else {
        args
    }
}

/// `ng test <lib>` for a registered library: code coverage unless given.
pub open spec fn enhanced_test(m: Map<Seq<char>, crate::config::LinkView>, args: Seq<Seq<char>>) -> Seq<
    Seq<char>,
> {
    if args.len() > 1 && m.contains_key(args[1]) {
        ensure_flag(args, "--code-coverage"@, seq!["--code-coverage"@])
    } else {
        args
    }
}

/// `ng serve`: reachable on the network with live reload, and hot module
/// replacement when any library is registered, unless given.
pub open spec fn enhanced_serve(m: Map<Seq<char>, crate::config::LinkView>, args: Seq<Seq<char>>) -> Seq<
    Seq<char>,
> {
    let a = ensure_flag(args, "--host"@, seq!["--host"@, "0.0.0.0"@]);
    let b = ensure_flag(a, "--live-reload"@, seq!["--live-reload"@]);
    if m.dom().len() > 0 && !b.contains("--hmr"@) {
        b.push("--hmr"@)
    } else {
        b
    }
}

/// The arguments an Angular CLI command is run with.
pub open spec fn enhanced(m: Map<Seq<char>, crate::config::LinkView>, args: Seq<Seq<char>>) -> Seq<
    Seq<char>,
> {
    if args[0] == "build"@ {
        enhanced_build(m, args)
    } else if args[0] == "test"@ {
        enhanced_test(m, args)
    } else if args[0] == "serve"@ {
        enhanced_serve(m, args)
    } else {
        args
    }
}

/// Appends `flag` (and `value`, if any) unless `flag` is among `args`.
fn add_flag(args: &mut Vec<String>, flag: &str, value: Option<&str>)
    ensures
        strings_view(final(args)@) == ensure_flag(
            strings_view(old(args)@),
            flag@,
            match value {
                Some(v) => seq![flag@, v@],
                None => seq![flag@],
            },
        ),
{
    if !list_has(args, flag) {
        let ghost before = strings_view(args@);
        args.push(owned(flag));
        match value {
            Some(v) => {
                args.push(owned(v));
                assert(strings_view(args@) =~= before + seq![flag@, v@]);
            },
            None => {
                assert(strings_view(args@) =~= before + seq![flag@]);
            },
        }
    }
}

impl NgProxy {
    pub fn new(config: Config, workspace_root: String) -> (r: NgProxy)
        ensures
            r.spine_config == config,
            r.workspace_root == workspace_root,
    {
        NgProxy { spine_config: config, workspace_root }
    }

    /// The arguments to run the Angular CLI with; an empty command is refused.
    pub fn proxy_args(&self, args: Vec<String>) -> (r: Result<Vec<String>, SpineError>)
        requires
            self.spine_config.wf(),
        ensures
            args@.len() == 0 ==> (r matches Err(SpineError::Config(m)) && m@
                == "No Angular CLI command provided"@),
            args@.len() > 0 ==> (r matches Ok(v) && strings_view(v@) == enhanced(
                self.spine_config@,
                strings_view(args@),
            )),
    {
        if args.len() == 0 {
            return Err(SpineError::Config(owned("No Angular CLI command provided")));
        }
        Ok(self.enhance_ng_command(args))
    }

    fn enhance_ng_command(&self, args: Vec<String>) -> (r: Vec<String>)
        requires
            self.spine_config.wf(),
            args@.len() > 0,
        ensures
            strings_view(r@) == enhanced(self.spine_config@, strings_view(args@)),
    {
        let cmd = args[0].as_str();
        if str_eq(cmd, "build") {
            self.enhance_build_command(args)
        } else if str_eq(cmd, "test") {
            self.enhance_test_command(args)
        } else if str_eq(cmd, "serve") {
            self.enhance_serve_command(args)
        } else {
            args
        }
    }

    fn enhance_build_command(&self, args: Vec<String>) -> (r: Vec<String>)
        requires
            self.spine_config.wf(),
        ensures
            strings_view(r@) == enhanced_build(self.spine_config@, strings_view(args@)),
    {
        let mut enhanced = args;
        if enhanced.len() > 1 && self.spine_config.contains(enhanced[1].as_str()) {
            add_flag(&mut enhanced, "--configuration", Some("production"));
            add_flag(&mut enhanced, "--source-map", None);
        }
        enhanced
    }

    fn enhance_test_command(&self, args: Vec<String>) -> (r: Vec<String>)
        requires
            self.spine_config.wf(),
        ensures
            strings_view(r@) == enhanced_test(self.spine_config@, strings_view(args@)),
    {
        let mut enhanced = args;
        if enhanced.len() > 1 && self.spine_config.contains(enhanced[1].as_str()) {
            add_flag(&mut enhanced, "--code-coverage", None);
        }
        enhanced
    }

    fn enhance_serve_command(&self, args: Vec<String>) -> (r: Vec<String>)
        requires
            self.spine_config.wf(),
        ensures
            strings_view(r@) == enhanced_serve(self.spine_config@, strings_view(args@)),
    {
        let mut enhanced = args;
        add_flag(&mut enhanced, "--host", Some("0.0.0.0"));
        add_flag(&mut enhanced, "--live-reload", None);
        if self.spine_config.links.len() > 0 && !list_has(&enhanced, "--hmr") {
            let ghost before = strings_view(enhanced@);
            enhanced.push(owned("--hmr"));
            assert(strings_view(enhanced@) =~= before.push("--hmr"@));
        }
        proof {
            crate::config::lemma_map_nonempty(self.spine_config.entries());
        }
        enhanced
    }
}

} // verus!
