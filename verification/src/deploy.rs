//! The deploy versioning policy: which `version` parameter, if any, a
//! deploy request carries, decided from the currently deployed
//! contexts before any request is issued.

use vstd::prelude::*;

use crate::context::Context;
use crate::context::ContextView;
use crate::error::OperationError;
use crate::text::dec_digits;
use crate::text::dec_string;
use crate::text::digits_val;
use crate::text::pad_left_zeros;
use crate::text::parse_u32_range;
use crate::text::spec_pad_left;
use crate::text::str_eq;
use crate::text::valid_digits;

verus! {

/// Five-digit zero-padded decimal form of a version number.
pub open spec fn spec_version_string(n: int) -> Seq<char> {
    spec_pad_left(dec_digits(n), 5, '0')
}

/// Format a version number the way the deploy query carries it.
pub fn format_version(n: u32) -> (r: String)
    ensures
        r@ == spec_version_string(n as int),
{
    let d = dec_string(n);
    pad_left_zeros(d.as_str(), 5)
}

/// A version tag that can be stepped: a decimal number whose successor
/// still fits a 32-bit signed count.
pub open spec fn spec_version_ok(v: Seq<char>) -> bool {
    valid_digits(v) && digits_val(v) < i32::MAX
}

/// The context the versioning decision looks at: the last entry of the
/// list at the given path. Paths are unique within one well-formed
/// list response; should a response repeat one, the later entry wins.
pub open spec fn spec_find_context(s: Seq<ContextView>, p: Seq<char>) -> Option<ContextView>
    decreases s.len(),
{
    if s.len() == 0 {
        None
    } else if s.last().context_path == p {
        Some(s.last())
    } else {
        spec_find_context(s.drop_last(), p)
    }
}

/// Find the context deployed at `context_path`, if any.
pub fn find_context<'a>(contexts: &'a Vec<Context>, context_path: &str) -> (r: Option<
    &'a Context,
>)
    ensures
        match r {
            Some(c) => spec_find_context(contexts.deep_view(), context_path@) == Some(c@),
            None => spec_find_context(contexts.deep_view(), context_path@) is None,
        },
{
    let ghost dv = contexts.deep_view();
    let mut i: usize = contexts.len();
    proof {
        assert(dv.subrange(0, dv.len() as int) =~= dv);
    }
    while i > 0
        invariant
            i <= contexts.len(),
            dv == contexts.deep_view(),
            spec_find_context(dv, context_path@) == spec_find_context(
                dv.subrange(0, i as int),
                context_path@,
            ),
        decreases i,
    {
        i -= 1;
        let c = &contexts[i];
        let ghost pre = dv.subrange(0, i as int + 1);
        proof {
            assert(pre.last() == c@);
            assert(pre.drop_last() =~= dv.subrange(0, i as int));
        }
        if str_eq(c.context_path.as_str(), context_path) {
            return Some(c);
        }
    }
    proof {
        assert(dv.subrange(0, 0) =~= Seq::<ContextView>::empty());
    }
    None
}

/// The versioning decision for one deploy, before any request goes
/// out: a fresh path takes `00001` when parallel and nothing
/// otherwise; a versioned context takes its successor version when
/// parallel and is a type mismatch otherwise; an unversioned context
/// is a type mismatch when parallel and takes nothing otherwise. A
/// version tag that is not a steppable number cannot be stepped.
pub open spec fn spec_plan_version(s: Seq<ContextView>, p: Seq<char>, is_parallel: bool) -> Result<
    Option<Seq<char>>,
    OperationError,
> {
    match spec_find_context(s, p) {
        None => if is_parallel {
            Ok(Some(spec_version_string(1)))
        } else {
            Ok(None)
        },
        Some(c) => match c.context_version {
            Some(v) => if !is_parallel {
                Err(OperationError::DeploymentTypeMismatch)
            } else if spec_version_ok(v) {
                Ok(Some(spec_version_string(digits_val(v) + 1)))
            } else {
                Err(OperationError::MalformedContextVersion)
            },
            None => if is_parallel {
                Err(OperationError::DeploymentTypeMismatch)
            } else {
                Ok(None)
            },
        },
    }
}

/// Decide the `version` query parameter of a deploy to `context_path`,
/// given the contexts currently deployed, raising the deployment-type
/// mismatch before any request is built.
pub fn plan_deploy_version(
    contexts: &Vec<Context>,
    context_path: &str,
    is_parallel: bool,
) -> (r: Result<Option<String>, OperationError>)
    ensures
        ({
            let plan = spec_plan_version(contexts.deep_view(), context_path@, is_parallel);
            match r {
                Ok(v) => plan matches Ok(pv) && v.deep_view() == pv,
                Err(e) => plan matches Err(pe) && e == pe,
            }
        }),
{
    match find_context(contexts, context_path) {
        None => {
            if is_parallel {
                Ok(Some(format_version(1)))
            } else {
                Ok(None)
            }
        },
        Some(c) => {
            match &c.context_version {
                Some(v) => {
                    if !is_parallel {
                        Err(OperationError::DeploymentTypeMismatch)
                    } else {
                        let n = v.as_str().unicode_len();
                        proof {
                            assert(v@.subrange(0, n as int) =~= v@);
                        }
                        match parse_u32_range(v.as_str(), 0, n) {
                            Some(num) => {
                                if num < 2147483647 {
                                    Ok(Some(format_version(num + 1)))
                                } else {
                                    Err(OperationError::MalformedContextVersion)
                                }
                            },
                            None => Err(OperationError::MalformedContextVersion),
                        }
                    }
                },
                None => {
                    if is_parallel {
                        Err(OperationError::DeploymentTypeMismatch)
                    } else {
                        Ok(None)
                    }
                },
            }
        },
    }
}

} // verus!
