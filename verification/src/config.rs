//! Service configuration and project-configuration validation.
use vstd::prelude::*;

use crate::error::{config_error, Error};
use crate::models::{LoopDefinition, Project};
use crate::text::{chars_of, concat, is_blank, owned, trim};

verus! {

/// Where the service listens and which database it uses.
#[derive(Debug, Clone)]
pub struct Config {
    pub host: String,
    pub port: u16,
    pub database_url: String,
}

pub open spec fn is_digit(c: char) -> bool {
    '0' <= c && c <= '9'
}

pub open spec fn digit_value(c: char) -> int {
    (c as int) - ('0' as int)
}

/// The number that a string of decimal digits denotes.
pub open spec fn decimal_value(ds: Seq<char>) -> int
    decreases ds.len(),
{
    if ds.len() == 0 {
        0
    } else {
        decimal_value(ds.drop_last()) * 10 + digit_value(ds.last())
    }
}

/// The digits of an unsigned number in text, after an optional `+`.
pub open spec fn unsigned_digits(s: Seq<char>) -> Seq<char> {
    if s.len() > 0 && s[0] == '+' {
        s.drop_first()
    } else {
        s
    }
}

/// What `str::parse::<u16>` gives for `s`.
pub open spec fn parse_u16_spec(s: Seq<char>) -> Option<u16> {
    let ds = unsigned_digits(s);
    if ds.len() > 0 && (forall|i: int| 0 <= i < ds.len() ==> is_digit(#[trigger] ds[i]))
        && decimal_value(ds) <= 65535 {
        Some(decimal_value(ds) as u16)
    } else {
        None
    }
}

pub proof fn lemma_decimal_value_nonneg(ds: Seq<char>)
    requires
        forall|i: int| 0 <= i < ds.len() ==> is_digit(#[trigger] ds[i]),
    ensures
        decimal_value(ds) >= 0,
    decreases ds.len(),
{
    if ds.len() > 0 {
        lemma_decimal_value_nonneg(ds.drop_last());
    }
}

/// Parses a port number the way `str::parse::<u16>` does.
pub fn parse_u16(s: &str) -> (r: Option<u16>)
    ensures
        r == parse_u16_spec(s@),
{
    let v = chars_of(s);
    let n = v.len();
    let start: usize = if n > 0 && v[0] == '+' {
        1
    } else {
        0
    };
    let ghost ds = unsigned_digits(s@);
    assert(ds =~= v@.skip(start as int));
    if start >= n {
        return None;
    }
    let mut acc: u32 = 0;
    let mut i: usize = start;
    while i < n
        invariant
            n == v@.len(),
            v@ == s@,
            ds == unsigned_digits(s@),
            start <= i <= n,
            ds == v@.skip(start as int),
            forall|q: int| start <= q < i ==> is_digit(#[trigger] v@[q]),
            acc <= 65536,
            acc == (if decimal_value(v@.subrange(start as int, i as int)) < 65536 {
                decimal_value(v@.subrange(start as int, i as int))
            } else {
                65536
            }),
        decreases n - i,
    {
        let c = v[i];
        if !('0' <= c && c <= '9') {
            proof {
                assert(ds[i - start] == c);
            }
            return None;
        }
        let d = (c as u32) - ('0' as u32);
        let ghost prev = decimal_value(v@.subrange(start as int, i as int));
        proof {
            assert(v@.subrange(start as int, i + 1).drop_last() =~= v@.subrange(
                start as int,
                i as int,
            ));
            assert(forall|q: int|
                0 <= q < v@.subrange(start as int, i as int).len() ==> is_digit(
                    #[trigger] v@.subrange(start as int, i as int)[q],
                )) by {
                assert forall|q: int|
                    0 <= q < v@.subrange(start as int, i as int).len() implies is_digit(
                        #[trigger] v@.subrange(start as int, i as int)[q],
                    ) by {
                    assert(v@.subrange(start as int, i as int)[q] == v@[start + q]);
                }
            }
            lemma_decimal_value_nonneg(v@.subrange(start as int, i as int));
            assert(decimal_value(v@.subrange(start as int, i + 1)) == prev * 10 + d);
            if prev >= 65536 {
                assert(prev * 10 + d >= 65536) by (nonlinear_arith)
                    requires
                        prev >= 65536,
                        d >= 0,
                ;
            }
        }
        let next = acc * 10 + d;
        acc = if next > 65536 {
            65536
        } else {
            next
        };
        i = i + 1;
    }
    proof {
        assert(v@.subrange(start as int, n as int) =~= ds);
    }
    if acc > 65535 {
        None
    } else {
        Some(acc as u16)
    }
}

impl Config {
    /// The configuration given the values of the environment variables
    /// `LOOPTASK_HOST`, `LOOPTASK_PORT`, `PORT` and `DATABASE_URL` (`None`
    /// where a variable is unset or not Unicode). The port is taken from
    /// `LOOPTASK_PORT` when set, else from `PORT`, and is 8080 when the
    /// chosen value is not a valid port number.
    pub fn from_values(
        host: Option<String>,
        looptask_port: Option<String>,
        port: Option<String>,
        database_url: Option<String>,
    ) -> (c: Config)
        ensures
            c.host@ == (match host {
                Some(h) => h@,
                None => "0.0.0.0"@,
            }),
            c.port == (match (match looptask_port {
                Some(p) => Some(p),
                None => port,
            }) {
                Some(p) => match parse_u16_spec(p@) {
                    Some(v) => v,
                    None => 8080u16,
                },
                None => 8080u16,
            }),
            c.database_url@ == (match database_url {
                Some(d) => d@,
                None => "sqlite::memory:"@,
            }),
    {
        let host = match host {
            Some(h) => h,
            None => owned("0.0.0.0"),
        };
        let chosen = match looptask_port {
            Some(p) => Some(p),
            None => port,
        };
        let port = match chosen {
            Some(p) => match parse_u16(p.as_str()) {
                Some(v) => v,
                None => 8080,
            },
            None => 8080,
        };
        let database_url = match database_url {
            Some(d) => d,
            None => owned("sqlite::memory:"),
        };
        Config { host, port, database_url }
    }
}

/// A project configuration file's content.
#[derive(Debug, Clone)]
pub struct ProjectConfig {
    pub project: Project,
}

/// What is wrong with a loop definition, if anything.
pub open spec fn loop_problem(l: LoopDefinition) -> Option<Seq<char>> {
    if trim(l.name@).len() == 0 {
        Some("loop.name is required"@)
    } else if trim(l.goal@).len() == 0 {
        Some("loop.goal is required for "@ + l.name@)
    } else {
        None
    }
}

/// The problem of the first loop that has one.
pub open spec fn loops_problem(ls: Seq<LoopDefinition>) -> Option<Seq<char>>
    decreases ls.len(),
{
    if ls.len() == 0 {
        None
    } else {
        match loop_problem(ls[0]) {
            Some(m) => Some(m),
            None => loops_problem(ls.drop_first()),
        }
    }
}

/// What is wrong with a project configuration, if anything: a blank
/// project name, no loops, or the first loop with a blank name or goal.
pub open spec fn project_problem(p: Project) -> Option<Seq<char>> {
    if trim(p.name@).len() == 0 {
        Some("project.name is required"@)
    } else if p.loops@.len() == 0 {
        Some("project.loops must not be empty"@)
    } else {
        loops_problem(p.loops@)
    }
}

proof fn lemma_loops_problem_none(ls: Seq<LoopDefinition>)
    ensures
        loops_problem(ls) is None <==> forall|i: int|
            0 <= i < ls.len() ==> #[trigger] loop_problem(ls[i]) is None,
    decreases ls.len(),
{
    if ls.len() > 0 {
        lemma_loops_problem_none(ls.drop_first());
        if loops_problem(ls) is None {
            assert forall|i: int| 0 <= i < ls.len() implies #[trigger] loop_problem(
                ls[i],
            ) is None by {
                if i > 0 {
                    assert(ls[i] == ls.drop_first()[i - 1]);
                }
            }
        }
        if forall|i: int| 0 <= i < ls.len() ==> #[trigger] loop_problem(ls[i]) is None {
            assert(loop_problem(ls[0]) is None);
            assert forall|i: int| 0 <= i < ls.drop_first().len() implies #[trigger] loop_problem(
                ls.drop_first()[i],
            ) is None by {
                assert(ls.drop_first()[i] == ls[i + 1]);
            }
        }
    }
}

impl ProjectConfig {
    /// Checks that the project has a name and at least one loop, and that
    /// every loop has a name and a goal.
    pub fn validate(&self) -> (r: Result<(), Error>)
        ensures
            match r {
                Ok(()) => project_problem(self.project) is None,
                Err(e) => e matches Error::Config(m) && project_problem(self.project) == Some(m@),
            },
            r is Ok <==> (trim(self.project.name@).len() > 0 && self.project.loops@.len() > 0
                && forall|i: int|
                0 <= i < self.project.loops@.len() ==> #[trigger] loop_problem(
                    self.project.loops@[i],
                ) is None),
    {
        proof {
            lemma_loops_problem_none(self.project.loops@);
        }
        if is_blank(self.project.name.as_str()) {
            return Err(config_error("project.name is required"));
        }
        if self.project.loops.len() == 0 {
            return Err(config_error("project.loops must not be empty"));
        }
        let n = self.project.loops.len();
        let ghost ls = self.project.loops@;
        assert(ls.skip(0) =~= ls);
        for i in 0..n
            invariant
                n == ls.len(),
                ls == self.project.loops@,
                project_problem(self.project) == loops_problem(ls),
                loops_problem(ls) == loops_problem(ls.skip(i as int)),
        {
            let loop_def = &self.project.loops[i];
            proof {
                assert(ls.skip(i as int)[0] == ls[i as int]);
                assert(ls.skip(i as int).drop_first() =~= ls.skip(i + 1));
            }
            if is_blank(loop_def.name.as_str()) {
                return Err(config_error("loop.name is required"));
            }
            if is_blank(loop_def.goal.as_str()) {
                return Err(Error::Config(concat("loop.goal is required for ", loop_def.name.as_str())));
            }
        }
        proof {
            assert(ls.skip(n as int) =~= Seq::<LoopDefinition>::empty());
        }
        Ok(())
    }
}

} // verus!
