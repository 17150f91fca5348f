use kemono_to_epub::epub::address::{posts_url, AddressError};
use kemono_to_epub::EpubRequest;

#[test]
fn readme_address_gives_service_and_id() {
    let r = EpubRequest::creator_address("https://kemono.su/patreon/user/31891971?o=50");
    assert_eq!(r, Ok(("patreon".to_string(), "31891971".to_string())));
}

#[test]
fn address_without_query() {
    let r = EpubRequest::creator_address("https://kemono.su/fanbox/user/123");
    assert_eq!(r, Ok(("fanbox".to_string(), "123".to_string())));
}

#[test]
fn law_id_stops_at_question_mark() {
    let r = EpubRequest::creator_address("https://kemono.party/fantia/user/9?x=1?y=2");
    assert_eq!(r, Ok(("fantia".to_string(), "9".to_string())));
}

#[test]
fn post_address_keeps_the_rest_in_the_id() {
    let r = EpubRequest::creator_address("https://kemono.su/patreon/user/31891971/post/124265700");
    assert_eq!(r, Ok(("patreon".to_string(), "31891971/post/124265700".to_string())));
}

#[test]
fn not_a_kemono_address() {
    let r = EpubRequest::creator_address("https://example.com/patreon/user/1");
    assert_eq!(r, Err(AddressError::NotKemono));
}

#[test]
fn kemono_at_the_end_cannot_be_cut() {
    assert_eq!(EpubRequest::creator_address("kemono"), Err(AddressError::CutOutsideText));
    assert_eq!(EpubRequest::creator_address("x.kemono"), Err(AddressError::CutOutsideText));
}

#[test]
fn kemono_before_a_wide_character_cannot_be_cut() {
    assert_eq!(
        EpubRequest::creator_address("https://kemonoé/a/b/c/d"),
        Err(AddressError::CutOutsideText)
    );
}

#[test]
fn missing_service() {
    assert_eq!(
        EpubRequest::creator_address("https://kemono.su"),
        Err(AddressError::MissingService)
    );
    assert_eq!(
        EpubRequest::creator_address("https://kemono.su/patreon"),
        Err(AddressError::MissingService)
    );
}

#[test]
fn missing_id() {
    assert_eq!(
        EpubRequest::creator_address("https://kemono.su/patreon/user"),
        Err(AddressError::MissingId)
    );
}

#[test]
fn profile_and_page_addresses() {
    assert_eq!(
        EpubRequest::profile_url("patreon", "31891971"),
        "https://kemono.su/api/v1/patreon/user/31891971/profile"
    );
    assert_eq!(
        posts_url("patreon", "31891971", 0),
        "https://kemono.su/api/v1/patreon/user/31891971?o=0"
    );
    assert_eq!(
        posts_url("patreon", "31891971", 150),
        "https://kemono.su/api/v1/patreon/user/31891971?o=150"
    );
}
