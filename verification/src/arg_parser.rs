//! A small command-line option parser: single-letter options, each either a
//! flag or taking the following argument as its value.

use vstd::prelude::*;
use vstd::std_specs::cmp::PartialEqSpec;
use vstd::string::StrSliceExecFns;
use vstd::string::StringSliceAdditionalSpecFns;
use vstd::utf8::encode_utf8;

verus! {

/// One recognized option.
#[derive(Debug)]
pub struct Arg<ID: Copy> {
    pub id: ID,
    pub short_name: char,
    pub value_name: Option<String>,
    pub help: String,
}

/// Whether the text `s` is exactly the two characters `-` and `c`, written
/// as two bytes.
pub open spec fn is_matched_spec(s: Seq<char>, c: char) -> bool {
    encode_utf8(s).len() == 2 && s.len() == 2 && s[0] == '-' && s[1] == c
}

impl<ID: Copy> Arg<ID> {
    /// Build an option from its id, its single-letter name, the name of its
    /// value (when it takes one) and its help text.
    pub fn new(id: ID, short_name: char, value_name: Option<String>, help: String) -> (r: Self)
        ensures
            r.id == id && r.short_name == short_name && r.value_name == value_name && r.help
                == help,
    {
        Arg { id, short_name, value_name, help }
    }

    /// Check whether `arg` invokes this option (`-x` for short name `x`).
    pub fn is_matched(&self, arg: &str) -> (r: bool)
        ensures
            r == is_matched_spec(arg@, self.short_name),
    {
        proof {
            assert(arg.spec_bytes() == encode_utf8(arg@));
        }
        let byte_len = arg.as_bytes().len();
        if byte_len != 2 {
            return false;
        }
        let n = arg.unicode_len();
        if n != 2 {
            return false;
        }
        let c0 = arg.get_char(0);
        let c1 = arg.get_char(1);
        c0 == '-' && c1 == self.short_name
    }
}

/// One parsed command-line item: an option occurrence (with its value, when
/// the option takes one), or a bare value.
#[derive(Debug, PartialEq)]
pub enum ArgValue<ID: Copy + PartialEq> {
    Arg { id: ID, value: Option<String> },
    Value { value: String },
}

/// A parse failure.
#[derive(Debug, PartialEq)]
pub enum ArgParseError {
    /// An option that takes a value stood last; carries the option letter.
    ArgValueMissing { name: char },
    /// An argument began with `-` but matched no option; carries it.
    ParseError { argument: String },
}

/// The index of the first option that `s` invokes, if any, starting the
/// search at option `k`.
pub open spec fn matched_option<ID: Copy>(options: Seq<Arg<ID>>, s: Seq<char>, k: int) -> Option<
    int,
>
    decreases options.len() - k,
{
    if k < 0 || k >= options.len() {
        None
    } else if is_matched_spec(s, options[k].short_name) {
        Some(k)
    } else {
        matched_option(options, s, k + 1)
    }
}

/// What parsing the arguments from position `i` on yields: the parsed items
/// in order, or the first error.
pub open spec fn parse_spec<ID: Copy + PartialEq>(
    options: Seq<Arg<ID>>,
    args: Seq<String>,
    i: int,
) -> Result<Seq<ArgValue<ID>>, ArgParseError>
    decreases args.len() - i,
{
    if i < 0 || i >= args.len() {
        Ok(Seq::empty())
    } else {
        let s = args[i]@;
        if !(s.len() > 0 && s[0] == '-') {
            match parse_spec(options, args, i + 1) {
                Ok(rest) => Ok(seq![ArgValue::Value { value: args[i] }] + rest),
                Err(e) => Err(e),
            }
        } else {
            match matched_option(options, s, 0) {
                Some(k) => {
                    if options[k].value_name is Some {
                        if i + 1 < args.len() {
                            match parse_spec(options, args, i + 2) {
                                Ok(rest) => Ok(
                                    seq![
                                        ArgValue::Arg {
                                            id: options[k].id,
                                            value: Some(args[i + 1]),
                                        },
                                    ] + rest,
                                ),
                                Err(e) => Err(e),
                            }
                        } else {
                            Err(ArgParseError::ArgValueMissing { name: options[k].short_name })
                        }
                    } else {
                        match parse_spec(options, args, i + 1) {
                            Ok(rest) => Ok(
                                seq![ArgValue::Arg { id: options[k].id, value: None }] + rest,
                            ),
                            Err(e) => Err(e),
                        }
                    }
                },
                None => Err(ArgParseError::ParseError { argument: args[i] }),
            }
        }
    }
}

/// The parser: the recognized options, in priority order.
pub struct App<ID: Copy + PartialEq> {
    pub options: Vec<Arg<ID>>,
}

impl<ID: Copy + PartialEq> App<ID> {
    /// Build a parser over the given options.
    pub fn new(options: Vec<Arg<ID>>) -> (r: App<ID>)
        ensures
            r.options == options,
    {
        App { options }
    }

    /// The option with the given id, if any.
    ///
    /// Exact whenever the id type's equality agrees with its mathematical
    /// equality specification.
    pub fn find_arg(&self, id: ID) -> (r: Option<Arg<ID>>)
        ensures
            ID::obeys_eq_spec() ==> r == find_arg_spec(self.options@, id, 0),
    {
        let n = self.options.len();
        let mut k: usize = 0;
        while k < n
            invariant
                n == self.options@.len(),
                k <= n,
                ID::obeys_eq_spec() ==> find_arg_spec(self.options@, id, 0) == find_arg_spec(
                    self.options@,
                    id,
                    k as int,
                ),
            decreases n - k,
        {
            if self.options[k].id == id {
                let a = &self.options[k];
                let value_name = match &a.value_name {
                    Some(s) => Some(s.clone()),
                    None => None,
                };
                return Some(Arg { id: a.id, short_name: a.short_name, value_name, help: a.help.clone() });
            }
            k = k + 1;
        }
        None
    }

    /// Parse command-line arguments against the options.
    ///
    /// An argument starting with `-` must invoke an option; an option that
    /// takes a value consumes the following argument unconditionally; any
    /// other argument is kept as a bare value.
    pub fn parse(&self, arguments: &Vec<String>) -> (r: Result<Vec<ArgValue<ID>>, ArgParseError>)
        ensures
            match r {
                Ok(v) => parse_spec(self.options@, arguments@, 0) == Ok::<_, ArgParseError>(v@),
                Err(e) => parse_spec(self.options@, arguments@, 0) == Err::<Seq<ArgValue<ID>>, _>(
                    e,
                ),
            },
    {
        let n = arguments.len();
        let n_opts = self.options.len();
        let mut values: Vec<ArgValue<ID>> = Vec::new();
        let mut i: usize = 0;
        proof {
            assert(Seq::<ArgValue<ID>>::empty() + parse_spec(
                self.options@,
                arguments@,
                0,
            )->Ok_0 =~= parse_spec(self.options@, arguments@, 0)->Ok_0);
        }
        while i < n
            invariant
                n == arguments@.len(),
                n_opts == self.options@.len(),
                i <= n,
                parse_spec(self.options@, arguments@, 0) == (match parse_spec(
                    self.options@,
                    arguments@,
                    i as int,
                ) {
                    Ok(rest) => Ok::<_, ArgParseError>(values@ + rest),
                    Err(e) => Err::<Seq<ArgValue<ID>>, _>(e),
                }),
            decreases n - i,
        {
            let ghost opts = self.options@;
            let ghost args = arguments@;
            let ghost values_old = values@;
            let argument = &arguments[i];
            let a = argument.as_str();
            let dashed = a.unicode_len() > 0 && a.get_char(0) == '-';
            if !dashed {
                values.push(ArgValue::Value { value: argument.clone() });
                proof {
                    let pr = parse_spec(opts, args, i + 1);
                    if pr is Ok {
                        assert(values@ + pr->Ok_0 =~= values_old + (seq![
                            ArgValue::Value { value: args[i as int] },
                        ] + pr->Ok_0));
                    }
                }
                i = i + 1;
                continue ;
            }
            // Find the first option this argument invokes.
            let mut sel: Option<usize> = None;
            let mut k: usize = 0;
            while k < n_opts
                invariant
                    n_opts == self.options@.len(),
                    k <= n_opts,
                    a@ == arguments@[i as int]@,
                    i < n == arguments@.len(),
                    match sel {
                        None => matched_option(self.options@, a@, 0) == matched_option(
                            self.options@,
                            a@,
                            k as int,
                        ),
                        Some(j) => j < n_opts && matched_option(self.options@, a@, 0) == Some(
                            j as int,
                        ),
                    },
                decreases n_opts - k,
            {
                if sel.is_none() && self.options[k].is_matched(a) {
                    sel = Some(k);
                }
                k = k + 1;
            }
            match sel {
                None => {
                    return Err(ArgParseError::ParseError { argument: argument.clone() });
                },
                Some(j) => {
                    let opt = &self.options[j];
                    let takes_value = match &opt.value_name {
                        Some(_) => true,
                        None => false,
                    };
                    if takes_value {
                        if i + 1 < n {
                            let val = arguments[i + 1].clone();
                            values.push(ArgValue::Arg { id: opt.id, value: Some(val) });
                            proof {
                                let pr = parse_spec(opts, args, i + 2);
                                if pr is Ok {
                                    assert(values@ + pr->Ok_0 =~= values_old + (seq![
                                        ArgValue::Arg {
                                            id: opts[j as int].id,
                                            value: Some(args[i as int + 1]),
                                        },
                                    ] + pr->Ok_0));
                                }
                            }
                            i = i + 2;
                        } else {
                            return Err(ArgParseError::ArgValueMissing { name: opt.short_name });
                        }
                    } else {
                        values.push(ArgValue::Arg { id: opt.id, value: None });
                        proof {
                            let pr = parse_spec(opts, args, i + 1);
                            if pr is Ok {
                                assert(values@ + pr->Ok_0 =~= values_old + (seq![
                                    ArgValue::Arg { id: opts[j as int].id, value: None },
                                ] + pr->Ok_0));
                            }
                        }
                        i = i + 1;
                    }
                },
            }
        }
        proof {
            assert(values@ + Seq::<ArgValue<ID>>::empty() =~= values@);
        }
        Ok(values)
    }
}

/// The first option with the given id, starting the search at option `k`,
/// by the id type's equality specification.
pub open spec fn find_arg_spec<ID: Copy + PartialEq>(
    options: Seq<Arg<ID>>,
    id: ID,
    k: int,
) -> Option<Arg<ID>>
    decreases options.len() - k,
{
    if k < 0 || k >= options.len() {
        None
    } else if options[k].id.eq_spec(&id) {
        Some(options[k])
    } else {
        find_arg_spec(options, id, k + 1)
    }
}

} // verus!
