//! Reading a creator's service and id out of a kemono profile address such as
//! `https://kemono.su/patreon/user/31891971?o=50`, and the API addresses
//! that the library fetches.

use vstd::prelude::*;
use crate::text::{find_from, find_in, chars_of, string_of, owned, decimal, decimal_string,
    lemma_find_from, matches_at};
use crate::epub::EpubRequest;

verus! {

/// Why an address is not a creator's profile address.
#[derive(Debug, PartialEq, Eq, Structural, Clone, Copy)]
pub enum AddressError {
    /// `kemono` does not occur in it.
    NotKemono,
    /// `kemono` is not followed by one more ASCII character, so the text after
    /// it cannot be cut there.
    CutOutsideText,
    /// No `/` before or after the service.
    MissingService,
    /// No `/` after the `user` part.
    MissingId,
    /// No `/` before the creator's id.
    MissingCreatorId,
}

/// The service and the creator's id that an address names: the service sits
/// between the first two `/` after `kemono` and one more character, the id
/// after the next `/` but one, up to a `?` or the end.
pub open spec fn parse_address(a: Seq<char>) -> Result<(Seq<char>, Seq<char>), AddressError> {
    match find_from(a, "kemono"@, 0) {
        None => Err(AddressError::NotKemono),
        Some(p) => if !(p + 6 < a.len() && (a[p + 6] as u32) < 0x80) {
            Err(AddressError::CutOutsideText)
        } else {
            let kemono = p + 7;
            match find_from(a, "/"@, kemono) {
                None => Err(AddressError::MissingService),
                Some(s1) => {
                    let service_start = s1 + 1;
                    match find_from(a, "/"@, service_start) {
                        None => Err(AddressError::MissingService),
                        Some(service_end) => match find_from(a, "/"@, service_end) {
                            None => Err(AddressError::MissingId),
                            Some(u1) => {
                                let user_start = u1 + 1;
                                match find_from(a, "/"@, user_start) {
                                    None => Err(AddressError::MissingId),
                                    Some(user_end) => match find_from(a, "/"@, user_end) {
                                        None => Err(AddressError::MissingCreatorId),
                                        Some(c1) => {
                                            let id_start = c1 + 1;
                                            let service = a.subrange(service_start, service_end);
                                            match find_from(a, "?"@, id_start) {
                                                Some(q) => Ok((service, a.subrange(id_start, q))),
                                                None => Ok(
                                                    (service, a.subrange(id_start, a.len() as int)),
                                                ),
                                            }
                                        },
                                    },
                                }
                            },
                        },
                    }
                },
            }
        },
    }
}

/// The API address of a creator's profile.
pub open spec fn profile_url_text(service: Seq<char>, id: Seq<char>) -> Seq<char> {
    "https://kemono.su/api/v1/"@ + service + "/user/"@ + id + "/profile"@
}

/// The API address of the page of posts that starts at `offset`.
pub open spec fn posts_url_text(service: Seq<char>, id: Seq<char>, offset: nat) -> Seq<char> {
    "https://kemono.su/api/v1/"@ + service + "/user/"@ + id + "?o="@ + decimal(offset)
}

/// A single character as a one-character pattern.
proof fn lemma_single_char_match(s: Seq<char>, c: char, k: int)
    requires
        0 <= k < s.len(),
    ensures
        matches_at(s, seq![c], k) <==> s[k] == c,
{
    if s[k] == c {
        assert(s.subrange(k, k + 1) =~= seq![c]);
    } else {
        assert(s.subrange(k, k + 1)[0] != seq![c][0]);
    }
}

/// The service holds no `/` and the creator's id holds no `?`: whatever
/// follows the id in the address is left out.
pub proof fn law_address_parts(a: Seq<char>)
    ensures
        parse_address(a) matches Ok((service, id)) ==> {
            &&& forall|k: int| 0 <= k < service.len() ==> service[k] != '/'
            &&& forall|k: int| 0 <= k < id.len() ==> id[k] != '?'
        },
{
    reveal_strlit("/");
    reveal_strlit("?");
    reveal_strlit("kemono");
    if let Ok((service, id)) = parse_address(a) {
        let p = find_from(a, "kemono"@, 0)->0;
        let s1 = find_from(a, "/"@, p + 7)->0;
        let service_end = find_from(a, "/"@, s1 + 1)->0;
        let u1 = find_from(a, "/"@, service_end)->0;
        let user_end = find_from(a, "/"@, u1 + 1)->0;
        let c1 = find_from(a, "/"@, user_end)->0;
        lemma_find_from(a, "kemono"@, 0);
        lemma_find_from(a, "/"@, p + 7);
        lemma_find_from(a, "/"@, s1 + 1);
        lemma_find_from(a, "/"@, service_end);
        lemma_find_from(a, "/"@, u1 + 1);
        lemma_find_from(a, "/"@, user_end);
        lemma_find_from(a, "?"@, c1 + 1);
        assert forall|k: int| 0 <= k < service.len() implies service[k] != '/' by {
            lemma_single_char_match(a, '/', s1 + 1 + k);
            assert("/"@ =~= seq!['/']);
        }
        assert forall|k: int| 0 <= k < id.len() implies id[k] != '?' by {
            lemma_single_char_match(a, '?', c1 + 1 + k);
            assert("?"@ =~= seq!['?']);
        }
    }
}

proof fn lemma_find_here(s: Seq<char>, p: Seq<char>, j: int)
    requires
        matches_at(s, p, j),
    ensures
        find_from(s, p, j) == Some(j),
{
}

/// The creator's id is always found once the `user` part is: the `/` that ends
/// it starts the id.
pub proof fn law_creator_id_found(a: Seq<char>)
    ensures
        parse_address(a) != Err::<(Seq<char>, Seq<char>), AddressError>(
            AddressError::MissingCreatorId,
        ),
{
    reveal_strlit("kemono");
    if let Some(p) = find_from(a, "kemono"@, 0) {
        if p + 6 < a.len() && (a[p + 6] as u32) < 0x80 {
            lemma_find_from(a, "kemono"@, 0);
            lemma_find_from(a, "/"@, p + 7);
            if let Some(s1) = find_from(a, "/"@, p + 7) {
                if let Some(service_end) = find_from(a, "/"@, s1 + 1) {
                    lemma_find_from(a, "/"@, s1 + 1);
                    lemma_find_here(a, "/"@, service_end);
                    let u1 = service_end;
                    if let Some(user_end) = find_from(a, "/"@, u1 + 1) {
                        lemma_find_from(a, "/"@, u1 + 1);
                        lemma_find_here(a, "/"@, user_end);
                    }
                }
            }
        }
    }
}

impl EpubRequest {
    /// The service and the creator's id in a profile address
    /// (`https://kemono.su/patreon/user/31891971?o=50` gives `patreon` and `31891971`).
    pub fn creator_address(address: &str) -> (r: Result<(String, String), AddressError>)
        ensures
            r matches Ok((service, id)) ==> parse_address(address@) == Ok::<
                (Seq<char>, Seq<char>),
                AddressError,
            >((service@, id@)),
            r matches Err(e) ==> parse_address(address@) == Err::<
                (Seq<char>, Seq<char>),
                AddressError,
            >(e),
    {
        let a = chars_of(address);
        let kemono_pat = chars_of("kemono");
        let slash = chars_of("/");
        let question = chars_of("?");
        let p = match find_in(&a, &kemono_pat, 0) {
            None => return Err(AddressError::NotKemono),
            Some(p) => p,
        };
        proof {
            reveal_strlit("kemono");
            reveal_strlit("/");
            reveal_strlit("?");
            assert("kemono"@.len() == 6);
            assert("/"@.len() == 1);
            lemma_find_from(a@, "kemono"@, 0);
            assert(matches_at(a@, "kemono"@, p as int));
        }
        if !(p + 6 < a.len() && (a[p + 6] as u32) < 0x80) {
            return Err(AddressError::CutOutsideText);
        }
        let kemono = p + 7;
        let s1 = match find_in(&a, &slash, kemono) {
            None => return Err(AddressError::MissingService),
            Some(s1) => s1,
        };
        proof {
            lemma_find_from(a@, "/"@, kemono as int);
        }
        let service_start = s1 + 1;
        let service_end = match find_in(&a, &slash, service_start) {
            None => return Err(AddressError::MissingService),
            Some(e) => e,
        };
        proof {
            lemma_find_from(a@, "/"@, service_start as int);
        }
        let u1 = match find_in(&a, &slash, service_end) {
            None => return Err(AddressError::MissingId),
            Some(u1) => u1,
        };
        proof {
            lemma_find_from(a@, "/"@, service_end as int);
        }
        let user_start = u1 + 1;
        let user_end = match find_in(&a, &slash, user_start) {
            None => return Err(AddressError::MissingId),
            Some(e) => e,
        };
        proof {
            lemma_find_from(a@, "/"@, user_start as int);
        }
        let c1 = match find_in(&a, &slash, user_end) {
            None => return Err(AddressError::MissingCreatorId),
            Some(c1) => c1,
        };
        proof {
            lemma_find_from(a@, "/"@, user_end as int);
        }
        let id_start = c1 + 1;
        let service = string_of(&a, service_start, service_end);
        proof {
            lemma_find_from(a@, "?"@, id_start as int);
        }
        let id = match find_in(&a, &question, id_start) {
            Some(q) => string_of(&a, id_start, q),
            None => string_of(&a, id_start, a.len()),
        };
        Ok((service, id))
    }

    /// The API address of a creator's profile.
    pub fn profile_url(service: &str, id: &str) -> (url: String)
        ensures
            url@ == profile_url_text(service@, id@),
    {
        let mut url = owned("https://kemono.su/api/v1/");
        url.append(service);
        url.append("/user/");
        url.append(id);
        url.append("/profile");
        url
    }
}

/// The API address of the page of a creator's posts that starts at `offset`.
pub fn posts_url(service: &str, id: &str, offset: u32) -> (url: String)
    ensures
        url@ == posts_url_text(service@, id@, offset as nat),
{
    let mut url = owned("https://kemono.su/api/v1/");
    url.append(service);
    url.append("/user/");
    url.append(id);
    url.append("?o=");
    let n = decimal_string(offset as usize);
    url.append(n.as_str());
    url
}

} // verus!
