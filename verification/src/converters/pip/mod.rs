//! Conversion of pip and pip-tools requirement files.

use crate::converters::ConverterOptions;
use crate::pep508;
use crate::text;
use crate::text::{spec_lines, spec_replace_seq, spec_starts_with, spec_trim};
use crate::utils::{clone_vec_string, str_views};
use vstd::prelude::*;

pub mod dependencies;

verus! {

broadcast use vstd::string::group_string_axioms;

/// A pip or pip-tools project under conversion.
pub struct Pip {
    pub converter_options: ConverterOptions,
    pub requirements_files: Vec<String>,
    pub dev_requirements_files: Vec<String>,
    pub is_pip_tools: bool,
}

/// What one requirements line means when references are followed: nothing, a
/// reference to another requirements file, or a dependency.
pub open spec fn spec_pip_line(
    prev: (Seq<Seq<char>>, Seq<Seq<char>>, Seq<Seq<char>>),
    line: Seq<char>,
) -> (Seq<Seq<char>>, Seq<Seq<char>>, Seq<Seq<char>>) {
    let t = spec_trim(line);
    if t.len() == 0 || t[0] == '#' {
        prev
    } else if spec_starts_with(t, "-r"@) {
        (prev.0, prev.1, prev.2.push(spec_trim(t.skip(2))))
    } else if spec_starts_with(t, "--requirement "@) {
        (prev.0, prev.1, prev.2.push(spec_trim(t.skip(13))))
    } else if t[0] == '-' {
        prev
    } else {
        let d = dependencies::spec_strip_comment(t);
        if pep508::pep508_ok(d) {
            (prev.0.push(pep508::pep508_normalized(d)), prev.1, prev.2)
        } else {
            (prev.0, prev.1.push(d), prev.2)
        }
    }
}

pub open spec fn spec_pip_lines(
    init: (Seq<Seq<char>>, Seq<Seq<char>>, Seq<Seq<char>>),
    lines: Seq<Seq<char>>,
) -> (Seq<Seq<char>>, Seq<Seq<char>>, Seq<Seq<char>>)
    decreases lines.len(),
{
    if lines.len() == 0 {
        init
    } else {
        spec_pip_line(spec_pip_lines(init, lines.drop_last()), lines.last())
    }
}

/// One requirements file's content split into parsed dependencies, lines that
/// did not parse, and referenced requirements files. Blank, comment and other
/// option lines contribute nothing; a reference keeps whatever spacing pip
/// allows between the flag and the file.
pub struct RequirementsParse {
    pub dependencies: Vec<String>,
    pub failed: Vec<String>,
    pub nested: Vec<String>,
}

/// Parse one requirements file's content, keeping references to other
/// requirements files so that the caller can follow them.
pub fn parse_requirements_content(content: &str) -> (r: RequirementsParse)
    ensures
        ({
            let out = spec_pip_lines(
                (Seq::empty(), Seq::empty(), Seq::empty()),
                spec_lines(content@),
            );
            &&& str_views(r.dependencies@) == out.0
            &&& str_views(r.failed@) == out.1
            &&& str_views(r.nested@) == out.2
        }),
{
    let cs = text::chars_of(content);
    let lines = text::split_lines(&cs);
    let ghost lv = lines.deep_view();
    let m = lines.len();
    let mut deps: Vec<String> = Vec::new();
    let mut failed: Vec<String> = Vec::new();
    let mut nested: Vec<String> = Vec::new();
    let mut j: usize = 0;
    proof {
        assert(lv.take(0) =~= Seq::<Seq<char>>::empty());
        assert(str_views(deps@) =~= Seq::<Seq<char>>::empty());
        assert(str_views(failed@) =~= Seq::<Seq<char>>::empty());
        assert(str_views(nested@) =~= Seq::<Seq<char>>::empty());
    }
    while j < m
        invariant
            0 <= j <= m,
            m == lines@.len(),
            lv == lines.deep_view(),
            lv.len() == m,
            ({
                let out = spec_pip_lines(
                    (Seq::empty(), Seq::empty(), Seq::empty()),
                    lv.take(j as int),
                );
                &&& str_views(deps@) == out.0
                &&& str_views(failed@) == out.1
                &&& str_views(nested@) == out.2
            }),
        decreases m - j,
    {
        proof {
            assert(lv.take(j + 1).drop_last() =~= lv.take(j as int));
            assert(lv.take(j + 1).last() == lv[j as int]);
            text::lemma_chars_deep_view(&lines@[j as int]);
        }
        let t = text::trim_chars(&lines[j]);
        if t.len() == 0 || t[0] == '#' {
        } else if text::starts_with_str(&t, "-r") {
            proof {
                reveal_strlit("-r");
            }
            let rest = text::subrange_chars(&t, 2, t.len());
            proof {
                assert(rest@ =~= t@.skip(2));
            }
            let name = text::trim_chars(&rest);
            let ghost old_nested = str_views(nested@);
            nested.push(text::string_from_chars(&name));
            proof {
                assert(str_views(nested@) =~= old_nested.push(spec_trim(t@.skip(2))));
            }
        } else if text::starts_with_str(&t, "--requirement ") {
            proof {
                reveal_strlit("--requirement ");
            }
            let rest = text::subrange_chars(&t, 13, t.len());
            proof {
                assert(rest@ =~= t@.skip(13));
            }
            let name = text::trim_chars(&rest);
            let ghost old_nested = str_views(nested@);
            nested.push(text::string_from_chars(&name));
            proof {
                assert(str_views(nested@) =~= old_nested.push(spec_trim(t@.skip(13))));
            }
        } else if t[0] == '-' {
        } else {
            let d = dependencies::strip_comment(&t);
            let ds = text::string_from_chars(&d);
            match pep508::requirement_normalized(ds.as_str()) {
                Some(norm) => {
                    let ghost old_deps = str_views(deps@);
                    deps.push(norm);
                    proof {
                        assert(str_views(deps@) =~= old_deps.push(pep508::pep508_normalized(d@)));
                    }
                },
                None => {
                    let ghost old_failed = str_views(failed@);
                    failed.push(ds);
                    proof {
                        assert(str_views(failed@) =~= old_failed.push(d@));
                    }
                },
            }
        }
        j += 1;
    }
    proof {
        assert(lv.take(m as int) =~= lv);
        assert(lv == spec_lines(content@));
    }
    RequirementsParse { dependencies: deps, failed, nested }
}

/// The files a conversion removes, in order: every requirements file, and for
/// pip-tools also the locked file generated from it.
pub open spec fn spec_files_to_delete(files: Seq<Seq<char>>, pip_tools: bool) -> Seq<Seq<char>>
    decreases files.len(),
{
    if files.len() == 0 {
        Seq::empty()
    } else {
        let prev = spec_files_to_delete(files.drop_last(), pip_tools);
        let with_own = prev.push(files.last());
        if pip_tools {
            with_own.push(spec_replace_seq(files.last(), ".in"@, ".txt"@))
        } else {
            with_own
        }
    }
}

/// The locked counterparts of the given requirements files.
pub open spec fn spec_locked_names(files: Seq<Seq<char>>) -> Seq<Seq<char>> {
    files.map_values(|f: Seq<char>| spec_replace_seq(f, ".in"@, ".txt"@))
}

impl Pip {
    /// The name of the package manager being converted.
    pub fn get_package_manager_name(&self) -> (r: String)
        ensures
            self.is_pip_tools ==> r@ == "pip-tools"@,
            !self.is_pip_tools ==> r@ == "pip"@,
    {
        if self.is_pip_tools {
            text::string_from_chars(&text::chars_of("pip-tools"))
        } else {
            text::string_from_chars(&text::chars_of("pip"))
        }
    }

    pub fn get_converter_options(&self) -> (r: &ConverterOptions)
        ensures
            *r == self.converter_options,
    {
        &self.converter_options
    }

    /// Locked versions exist only for pip-tools, and are respected unless the
    /// conversion opts out.
    pub fn respect_locked_versions(&self) -> (r: bool)
        ensures
            r == (self.is_pip_tools && !self.converter_options.ignore_locked_versions),
    {
        self.is_pip_tools && !self.converter_options.ignore_locked_versions
    }

    pub fn add_requirements_file(&mut self, file: String)
        ensures
            final(self).requirements_files@ == old(self).requirements_files@.push(file),
            final(self).dev_requirements_files == old(self).dev_requirements_files,
            final(self).converter_options == old(self).converter_options,
            final(self).is_pip_tools == old(self).is_pip_tools,
    {
        self.requirements_files.push(file);
    }

    pub fn add_dev_requirements_file(&mut self, file: String)
        ensures
            final(self).dev_requirements_files@ == old(self).dev_requirements_files@.push(file),
            final(self).requirements_files == old(self).requirements_files,
            final(self).converter_options == old(self).converter_options,
            final(self).is_pip_tools == old(self).is_pip_tools,
    {
        self.dev_requirements_files.push(file);
    }

    /// Every requirements file of the conversion, main ones first.
    pub fn all_requirements_files(&self) -> (r: Vec<String>)
        ensures
            str_views(r@) == str_views(self.requirements_files@) + str_views(
                self.dev_requirements_files@,
            ),
    {
        let mut r = clone_vec_string(&self.requirements_files);
        let mut dev = clone_vec_string(&self.dev_requirements_files);
        let ghost r0 = r@;
        let ghost d0 = dev@;
        r.append(&mut dev);
        proof {
            assert(str_views(r@) =~= str_views(r0) + str_views(d0));
        }
        r
    }

    /// The files deleted when the conversion finishes.
    pub fn get_migrated_files_to_delete(&self) -> (r: Vec<String>)
        ensures
            str_views(r@) == spec_files_to_delete(
                str_views(self.requirements_files@) + str_views(self.dev_requirements_files@),
                self.is_pip_tools,
            ),
    {
        let all = self.all_requirements_files();
        let ghost av = str_views(all@);
        let n = all.len();
        let mut out: Vec<String> = Vec::new();
        let mut i: usize = 0;
        proof {
            assert(av.take(0) =~= Seq::<Seq<char>>::empty());
            assert(str_views(out@) =~= spec_files_to_delete(av.take(0), self.is_pip_tools));
        }
        while i < n
            invariant
                0 <= i <= n,
                n == all@.len(),
                av == str_views(all@),
                av.len() == n,
                str_views(out@) == spec_files_to_delete(av.take(i as int), self.is_pip_tools),
            decreases n - i,
        {
            proof {
                assert(av.take(i + 1).drop_last() =~= av.take(i as int));
                assert(av.take(i + 1).last() == av[i as int]);
            }
            let ghost old_out = str_views(out@);
            out.push(all[i].clone());
            proof {
                assert(str_views(out@) =~= old_out.push(av[i as int]));
            }
            if self.is_pip_tools {
                let cs = text::chars_of(all[i].as_str());
                let pat = text::chars_of(".in");
                let rep = text::chars_of(".txt");
                proof {
                    reveal_strlit(".in");
                }
                let locked = text::replace_seq(&cs, &pat, &rep);
                let ghost out2 = str_views(out@);
                out.push(text::string_from_chars(&locked));
                proof {
                    assert(str_views(out@) =~= out2.push(
                        spec_replace_seq(av[i as int], ".in"@, ".txt"@),
                    ));
                }
            }
            i += 1;
        }
        proof {
            assert(av.take(n as int) =~= av);
        }
        out
    }

    /// The locked counterparts of every requirements file, which hold the
    /// pinned versions a pip-tools conversion constrains to.
    pub fn constraint_files(&self) -> (r: Vec<String>)
        ensures
            str_views(r@) == spec_locked_names(
                str_views(self.requirements_files@) + str_views(self.dev_requirements_files@),
            ),
    {
        let all = self.all_requirements_files();
        let ghost av = str_views(all@);
        let n = all.len();
        let mut out: Vec<String> = Vec::new();
        let mut i: usize = 0;
        proof {
            assert(str_views(out@) =~= av.take(0).map_values(
                |f: Seq<char>| spec_replace_seq(f, ".in"@, ".txt"@),
            ));
        }
        while i < n
            invariant
                0 <= i <= n,
                n == all@.len(),
                av == str_views(all@),
                av.len() == n,
                str_views(out@) == av.take(i as int).map_values(
                    |f: Seq<char>| spec_replace_seq(f, ".in"@, ".txt"@),
                ),
            decreases n - i,
        {
            let cs = text::chars_of(all[i].as_str());
            let pat = text::chars_of(".in");
            let rep = text::chars_of(".txt");
            proof {
                reveal_strlit(".in");
            }
            let locked = text::replace_seq(&cs, &pat, &rep);
            let ghost old_out = str_views(out@);
            out.push(text::string_from_chars(&locked));
            i += 1;
            proof {
                assert(str_views(out@) =~= old_out.push(
                    spec_replace_seq(av[i - 1], ".in"@, ".txt"@),
                ));
                assert(str_views(out@) =~= av.take(i as int).map_values(
                    |f: Seq<char>| spec_replace_seq(f, ".in"@, ".txt"@),
                ));
            }
        }
        proof {
            assert(av.take(n as int) =~= av);
        }
        out
    }

    /// The version constraints a pip-tools conversion pins, taken from the
    /// locked files' contents; nothing for plain pip, for a dry run, or when
    /// locked versions are ignored.
    pub fn get_constraint_dependencies(&self, locked_contents: &Vec<String>) -> (r: Option<
        Vec<String>,
    >)
        ensures
            (!self.is_pip_tools || self.converter_options.dry_run
                || self.converter_options.ignore_locked_versions) ==> r is None,
            (self.is_pip_tools && !self.converter_options.dry_run
                && !self.converter_options.ignore_locked_versions) ==> ({
                let out = dependencies::spec_req_contents(locked_contents@);
                &&& (out.0.len() == 0 ==> r is None)
                &&& (out.0.len() > 0 ==> (r matches Some(v) && str_views(v@) == out.0))
            }),
    {
        if !self.is_pip_tools || self.converter_options.dry_run
            || self.converter_options.ignore_locked_versions {
            return None;
        }
        let (deps, _failed) = dependencies::get(locked_contents);
        deps
    }
}

} // verus!
