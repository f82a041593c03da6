//! Who may call the gateway: every route but the health checks asks for a known API key.
use vstd::prelude::*;
use crate::errors::AppError;
use crate::domain::views;

verus! {

/// The routes that are open without a key.
pub open spec fn open_route(path: Seq<char>) -> bool {
    path == "/healthz"@ || path == "/readyz"@
}

/// The token of an `Authorization` header: what follows `Bearer `, or nothing.
pub open spec fn bearer_token(header: Option<Seq<char>>) -> Seq<char> {
    match header {
        Some(h) => if h.len() >= 7 && h.take(7) == "Bearer "@ {
            h.skip(7)
        } else {
            seq![]
        },
        None => seq![],
    }
}

/// Whether a request on `path` with the given `Authorization` header (where it is readable
/// text) is let through.
pub open spec fn authorized(path: Seq<char>, header: Option<Seq<char>>, keys: Seq<Seq<char>>) -> bool {
    open_route(path) || keys.contains(bearer_token(header))
}

fn bearer(header: Option<&str>) -> (r: String)
    ensures
        r@ == bearer_token(match header {
            Some(h) => Some(h@),
            None => None,
        }),
{
    proof {
        reveal_strlit("Bearer ");
    }
    match header {
        Some(h) => {
            let cs = crate::text::chars_of(h);
            let prefix = crate::text::chars_of("Bearer ");
            if cs.len() >= 7 {
                let mut i: usize = 0;
                while i < 7
                    invariant
                        i <= 7,
                        cs@.len() >= 7,
                        cs@ == h@,
                        header == Some(h),
                        prefix@ == "Bearer "@,
                        prefix@.len() == 7,
                        forall|k: int| 0 <= k < i ==> cs@[k] == prefix@[k],
                    decreases 7 - i,
                {
                    if cs[i] != prefix[i] {
                        assert(cs@.take(7)[i as int] != "Bearer "@[i as int]);
                        return String::new();
                    }
                    i = i + 1;
                }
                assert(cs@.take(7) =~= "Bearer "@);
                crate::text::string_of_range(&cs, 7, cs.len())
            } else {
                String::new()
            }
        },
        None => String::new(),
    }
}

/// Lets a request through, or refuses it as carrying an invalid API key.
pub fn authorize(path: &str, authorization: Option<&str>, api_keys: &[String]) -> (r: Result<(), AppError>)
    ensures
        r is Ok <==> authorized(
            path@,
            match authorization {
                Some(h) => Some(h@),
                None => None,
            },
            views(api_keys@),
        ),
        r matches Err(e) ==> e == AppError::InvalidApiKey,
{
    let p = String::from_str(path);
    if p == String::from_str("/healthz") || p == String::from_str("/readyz") {
        return Ok(());
    }
    let token = bearer(authorization);
    let mut i: usize = 0;
    while i < api_keys.len()
        invariant
            i <= api_keys@.len(),
            token@ == bearer_token(match authorization {
                Some(h) => Some(h@),
                None => None,
            }),
            forall|k: int| 0 <= k < i ==> (#[trigger] api_keys@[k])@ != token@,
        decreases api_keys@.len() - i,
    {
        if api_keys[i] == token {
            assert(views(api_keys@)[i as int] == token@);
            return Ok(());
        }
        i = i + 1;
    }
    assert forall|k: int| 0 <= k < views(api_keys@).len() implies views(api_keys@)[k] != token@ by {
        assert(views(api_keys@)[k] == api_keys@[k]@);
    }
    Err(AppError::InvalidApiKey)
}

} // verus!
