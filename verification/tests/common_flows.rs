use prompt_vault::error::{ApiResponse, InputError, MarketError};
use prompt_vault::store::Store;
use prompt_vault::types::{
    CreatePromptRequest, PromptCategory, RatePromptRequest, UpdatePromptRequest, UserId,
};

fn user(n: u8) -> UserId {
    UserId::from_bytes(vec![n, n, n])
}

fn request(title: &str, is_public: bool, price: u64) -> CreatePromptRequest {
    CreatePromptRequest {
        title: title.to_string(),
        description: "A description".to_string(),
        content: "The content".to_string(),
        category: PromptCategory::Writing,
        tags: vec!["alpha".to_string(), "beta".to_string()],
        price,
        is_premium: false,
        is_public,
    }
}

fn no_change(id: u64) -> UpdatePromptRequest {
    UpdatePromptRequest {
        id,
        title: None,
        description: None,
        content: None,
        category: None,
        tags: None,
        price: None,
        is_premium: None,
        is_public: None,
    }
}

/// A store with users 1 (author), 2 and 3, and one prompt of user 1.
fn store_with_prompt(is_public: bool, price: u64) -> (Store, u64) {
    let mut store = Store::new();
    store.create_user(&user(1), Some("ann".to_string()), None, 10).unwrap();
    store.create_user(&user(2), Some("bob".to_string()), None, 11).unwrap();
    store.create_user(&user(3), None, Some("c@example.org".to_string()), 12).unwrap();
    let p = store.create_prompt(&user(1), request("First", is_public, price), 20).unwrap();
    (store, p.id)
}

#[test]
fn new_store_is_empty() {
    let store = Store::new();
    assert_eq!(store.next_prompt_id(), 1);
    assert!(store.get_public_prompts().is_empty());
    assert_eq!(store.get_prompt(1), Err(MarketError::NotFound));
    assert_eq!(store.get_user(&user(1)), Err(MarketError::NotFound));
}

#[test]
fn create_user_records_all_fields() {
    let mut store = Store::new();
    let u = store
        .create_user(&user(7), Some("zed".to_string()), Some("z@example.org".to_string()), 99)
        .unwrap();
    assert_eq!(u.id, user(7));
    assert_eq!(u.username, Some("zed".to_string()));
    assert_eq!(u.email, Some("z@example.org".to_string()));
    assert_eq!(u.joined_at, 99);
    assert_eq!(u.total_earnings, 0);
    assert_eq!(u.total_spent, 0);
    assert_eq!(u.prompts_created, 0);
    assert_eq!(u.prompts_purchased, 0);
    assert_eq!(store.get_user(&user(7)), Ok(u));
}

#[test]
fn create_user_twice_is_refused() {
    let mut store = Store::new();
    store.create_user(&user(1), None, None, 1).unwrap();
    assert_eq!(store.create_user(&user(1), None, None, 2), Err(MarketError::AlreadyExists));
    assert_eq!(store.get_user(&user(1)).unwrap().joined_at, 1);
}

#[test]
fn create_user_checks_existence_before_the_name() {
    let mut store = Store::new();
    store.create_user(&user(1), None, None, 1).unwrap();
    assert_eq!(
        store.create_user(&user(1), Some("   ".to_string()), None, 2),
        Err(MarketError::AlreadyExists)
    );
}

#[test]
fn create_user_rejects_bad_names() {
    let mut store = Store::new();
    let bad = Err(MarketError::InvalidInput(InputError::InvalidUsername));
    assert_eq!(store.create_user(&user(1), Some("".to_string()), None, 1), bad);
    assert_eq!(store.create_user(&user(1), Some(" \t\n".to_string()), None, 1), bad);
    assert_eq!(store.create_user(&user(1), Some("x".repeat(51)), None, 1), bad);
    assert_eq!(store.get_user(&user(1)), Err(MarketError::NotFound));
    assert!(store.create_user(&user(1), Some("x".repeat(50)), None, 1).is_ok());
}

#[test]
fn created_prompt_has_zero_counters_and_no_rating() {
    let mut store = Store::new();
    store.create_user(&user(1), None, None, 1).unwrap();
    let p = store.create_prompt(&user(1), request("Hello", true, 5), 77).unwrap();
    assert_eq!(p.id, 1);
    assert_eq!(p.author, user(1));
    assert_eq!(p.created_at, 77);
    assert_eq!(p.updated_at, 77);
    assert_eq!(p.likes, 0);
    assert_eq!(p.purchases, 0);
    assert_eq!(p.rating_sum, 0);
    assert_eq!(p.total_ratings, 0);
    assert_eq!(p.rating_tenths(), 0);
    assert_eq!(p.price, 5);
    assert_eq!(p.tags, vec!["alpha".to_string(), "beta".to_string()]);
    assert_eq!(store.get_prompt(1), Ok(p));
    assert_eq!(store.next_prompt_id(), 2);
    assert_eq!(store.get_user(&user(1)).unwrap().prompts_created, 1);
}

#[test]
fn created_prompt_has_its_title_trimmed() {
    let mut store = Store::new();
    store.create_user(&user(1), None, None, 1).unwrap();
    let p = store.create_prompt(&user(1), request("  \tSpaced out \n", true, 0), 2).unwrap();
    assert_eq!(p.title, "Spaced out");
    assert_eq!(store.get_prompt(p.id).unwrap().title, "Spaced out");
}

#[test]
fn create_prompt_needs_a_registered_caller() {
    let mut store = Store::new();
    assert_eq!(
        store.create_prompt(&user(1), request("Hello", true, 0), 2),
        Err(MarketError::UserNotFound)
    );
    assert_eq!(store.next_prompt_id(), 1);
}

#[test]
fn create_prompt_validates_before_it_looks_for_the_caller() {
    let mut store = Store::new();
    assert_eq!(
        store.create_prompt(&user(1), request("", true, 0), 2),
        Err(MarketError::InvalidInput(InputError::TitleEmpty))
    );
}

#[test]
fn title_of_101_characters_is_refused_and_of_100_accepted() {
    let mut store = Store::new();
    store.create_user(&user(1), None, None, 1).unwrap();
    assert_eq!(
        store.create_prompt(&user(1), request(&"t".repeat(101), true, 0), 2),
        Err(MarketError::InvalidInput(InputError::TitleTooLong))
    );
    assert!(store.get_public_prompts().is_empty());
    let p = store.create_prompt(&user(1), request(&"t".repeat(100), true, 0), 2).unwrap();
    assert_eq!(p.title.len(), 100);
}

#[test]
fn ids_are_not_reused_after_deletion() {
    let (mut store, first) = store_with_prompt(true, 0);
    assert_eq!(first, 1);
    assert_eq!(store.delete_prompt(&user(1), first), Ok("Prompt deleted successfully".to_string()));
    assert_eq!(store.get_prompt(first), Err(MarketError::NotFound));
    assert_eq!(store.get_user(&user(1)).unwrap().prompts_created, 0);
    let second = store.create_prompt(&user(1), request("Second", true, 0), 30).unwrap();
    assert_eq!(second.id, 2);
    assert_eq!(store.get_user(&user(1)).unwrap().prompts_created, 1);
}

#[test]
fn delete_by_another_user_is_refused_and_changes_nothing() {
    let (mut store, id) = store_with_prompt(true, 3);
    let before = store.get_prompt(id).unwrap();
    assert_eq!(store.delete_prompt(&user(2), id), Err(MarketError::Unauthorized));
    assert_eq!(store.get_prompt(id), Ok(before));
    assert_eq!(store.get_user(&user(1)).unwrap().prompts_created, 1);
}

#[test]
fn delete_of_an_unknown_prompt_is_not_found() {
    let (mut store, id) = store_with_prompt(true, 3);
    assert_eq!(store.delete_prompt(&user(1), id + 1), Err(MarketError::NotFound));
}

#[test]
fn delete_keeps_purchases_on_record() {
    let (mut store, id) = store_with_prompt(false, 9);
    store.purchase_prompt(&user(2), id, 40).unwrap();
    store.like_prompt(&user(2), id).unwrap();
    store.delete_prompt(&user(1), id).unwrap();
    assert_eq!(store.get_user_purchases(&user(2)), vec![id]);
    assert!(store.has_purchased(&user(2), id));
    assert_eq!(store.get_user(&user(2)).unwrap().prompts_purchased, 1);
    assert_eq!(store.get_user(&user(1)).unwrap().total_earnings, 9);
    assert_eq!(store.like_prompt(&user(2), id), Err(MarketError::NotFound));
}

#[test]
fn update_replaces_only_what_is_given() {
    let (mut store, id) = store_with_prompt(true, 3);
    let before = store.get_prompt(id).unwrap();
    let mut change = no_change(id);
    change.title = Some("  Renamed ".to_string());
    change.price = Some(8);
    change.is_public = Some(false);
    let after = store.update_prompt(&user(1), &change, 500).unwrap();
    assert_eq!(after.title, "Renamed");
    assert_eq!(after.price, 8);
    assert!(!after.is_public);
    assert_eq!(after.updated_at, 500);
    assert_eq!(after.created_at, before.created_at);
    assert_eq!(after.description, before.description);
    assert_eq!(after.content, before.content);
    assert_eq!(after.category, before.category);
    assert_eq!(after.tags, before.tags);
    assert_eq!(after.is_premium, before.is_premium);
    assert_eq!(store.get_prompt(id), Ok(after));
}

#[test]
fn update_with_nothing_given_still_stamps_the_time() {
    let (mut store, id) = store_with_prompt(true, 3);
    let before = store.get_prompt(id).unwrap();
    let after = store.update_prompt(&user(1), &no_change(id), 501).unwrap();
    assert_eq!(after.updated_at, 501);
    assert_eq!(after.title, before.title);
    assert_eq!(after.price, before.price);
}

#[test]
fn update_replaces_every_field() {
    let (mut store, id) = store_with_prompt(true, 3);
    let change = UpdatePromptRequest {
        id,
        title: Some("T".to_string()),
        description: Some("D".to_string()),
        content: Some("C".to_string()),
        category: Some(PromptCategory::Business),
        tags: Some(vec!["x".to_string()]),
        price: Some(1),
        is_premium: Some(true),
        is_public: Some(false),
    };
    let after = store.update_prompt(&user(1), &change, 9).unwrap();
    assert_eq!(after.title, "T");
    assert_eq!(after.description, "D");
    assert_eq!(after.content, "C");
    assert_eq!(after.category, PromptCategory::Business);
    assert_eq!(after.tags, vec!["x".to_string()]);
    assert_eq!(after.price, 1);
    assert!(after.is_premium);
    assert!(!after.is_public);
}

#[test]
fn update_by_another_user_is_refused() {
    let (mut store, id) = store_with_prompt(true, 3);
    let before = store.get_prompt(id).unwrap();
    let mut change = no_change(id);
    change.price = Some(0);
    assert_eq!(store.update_prompt(&user(2), &change, 9), Err(MarketError::Unauthorized));
    assert_eq!(store.get_prompt(id), Ok(before));
}

#[test]
fn update_of_an_unknown_prompt_is_not_found() {
    let (mut store, id) = store_with_prompt(true, 3);
    assert_eq!(store.update_prompt(&user(1), &no_change(id + 5), 9), Err(MarketError::NotFound));
}

#[test]
fn update_with_one_bad_field_changes_nothing() {
    let (mut store, id) = store_with_prompt(true, 3);
    let before = store.get_prompt(id).unwrap();
    let mut change = no_change(id);
    change.title = Some("Fine".to_string());
    change.description = Some("d".repeat(501));
    assert_eq!(
        store.update_prompt(&user(1), &change, 9),
        Err(MarketError::InvalidInput(InputError::DescriptionTooLong))
    );
    assert_eq!(store.get_prompt(id), Ok(before));
}

#[test]
fn update_checks_each_tag() {
    let (mut store, id) = store_with_prompt(true, 3);
    let mut change = no_change(id);
    change.tags = Some(vec!["ok".to_string(), "g".repeat(31)]);
    assert_eq!(
        store.update_prompt(&user(1), &change, 9),
        Err(MarketError::InvalidInput(InputError::TagTooLong))
    );
    change.tags = Some(vec!["t".to_string(); 11]);
    assert_eq!(
        store.update_prompt(&user(1), &change, 9),
        Err(MarketError::InvalidInput(InputError::TooManyTags))
    );
    change.tags = Some(vec!["g".repeat(30); 10]);
    assert!(store.update_prompt(&user(1), &change, 9).is_ok());
}

#[test]
fn update_reports_the_first_bad_field() {
    let (mut store, id) = store_with_prompt(true, 3);
    let mut change = no_change(id);
    change.title = Some(" ".to_string());
    change.content = Some("".to_string());
    assert_eq!(
        store.update_prompt(&user(1), &change, 9),
        Err(MarketError::InvalidInput(InputError::TitleEmpty))
    );
    change.title = None;
    assert_eq!(
        store.update_prompt(&user(1), &change, 9),
        Err(MarketError::InvalidInput(InputError::ContentEmpty))
    );
    change.content = Some("c".repeat(10001));
    assert_eq!(
        store.update_prompt(&user(1), &change, 9),
        Err(MarketError::InvalidInput(InputError::ContentTooLong))
    );
}

#[test]
fn is_authorized_holds_of_the_author_alone() {
    let (store, id) = store_with_prompt(true, 3);
    assert!(store.is_authorized(id, &user(1)));
    assert!(!store.is_authorized(id, &user(2)));
    assert!(!store.is_authorized(id + 1, &user(1)));
}

#[test]
fn purchase_updates_every_counter_once() {
    let (mut store, id) = store_with_prompt(false, 250);
    assert!(store.can_settle(&user(2), id));
    assert_eq!(store.purchase_prompt(&user(2), id, 40), Ok("Purchase successful".to_string()));
    assert_eq!(store.get_prompt(id).unwrap().purchases, 1);
    let buyer = store.get_user(&user(2)).unwrap();
    assert_eq!(buyer.prompts_purchased, 1);
    assert_eq!(buyer.total_spent, 250);
    assert_eq!(buyer.total_earnings, 0);
    let seller = store.get_user(&user(1)).unwrap();
    assert_eq!(seller.total_earnings, 250);
    assert_eq!(seller.total_spent, 0);
    assert_eq!(seller.prompts_purchased, 0);
    assert_eq!(store.get_user_purchases(&user(2)), vec![id]);
    assert!(store.has_purchased(&user(2), id));
    assert!(!store.has_purchased(&user(3), id));
}

#[test]
fn purchase_twice_is_refused_and_counts_once() {
    let (mut store, id) = store_with_prompt(false, 250);
    store.purchase_prompt(&user(2), id, 40).unwrap();
    assert_eq!(store.purchase_prompt(&user(2), id, 41), Err(MarketError::AlreadyPurchased));
    assert_eq!(store.get_prompt(id).unwrap().purchases, 1);
    assert_eq!(store.get_user(&user(2)).unwrap().prompts_purchased, 1);
    assert_eq!(store.get_user(&user(2)).unwrap().total_spent, 250);
    assert_eq!(store.get_user(&user(1)).unwrap().total_earnings, 250);
    assert_eq!(store.get_user_purchases(&user(2)), vec![id]);
}

#[test]
fn purchase_of_own_prompt_is_refused() {
    let (mut store, id) = store_with_prompt(false, 250);
    assert_eq!(store.purchase_prompt(&user(1), id, 40), Err(MarketError::SelfPurchase));
    assert_eq!(store.get_prompt(id).unwrap().purchases, 0);
    assert_eq!(store.get_user(&user(1)).unwrap().total_earnings, 0);
}

#[test]
fn purchase_of_an_unknown_prompt_is_not_found() {
    let (mut store, id) = store_with_prompt(false, 250);
    assert_eq!(store.purchase_prompt(&user(2), id + 1, 40), Err(MarketError::NotFound));
}

#[test]
fn purchase_by_an_unregistered_caller_is_recorded() {
    let (mut store, id) = store_with_prompt(false, 4);
    assert!(store.purchase_prompt(&user(9), id, 40).is_ok());
    assert_eq!(store.get_prompt(id).unwrap().purchases, 1);
    assert_eq!(store.get_user(&user(1)).unwrap().total_earnings, 4);
    assert_eq!(store.get_user_purchases(&user(9)), vec![id]);
    assert_eq!(store.get_user(&user(9)), Err(MarketError::NotFound));
}

#[test]
fn purchases_are_listed_oldest_first() {
    let (mut store, first) = store_with_prompt(false, 1);
    let second = store.create_prompt(&user(1), request("Second", true, 2), 21).unwrap().id;
    let third = store.create_prompt(&user(3), request("Third", true, 3), 22).unwrap().id;
    store.purchase_prompt(&user(2), third, 30).unwrap();
    store.purchase_prompt(&user(3), first, 31).unwrap();
    store.purchase_prompt(&user(2), first, 32).unwrap();
    store.purchase_prompt(&user(2), second, 33).unwrap();
    assert_eq!(store.get_user_purchases(&user(2)), vec![third, first, second]);
    assert_eq!(store.get_user_purchases(&user(3)), vec![first]);
    assert_eq!(store.get_user_purchases(&user(1)), Vec::<u64>::new());
    assert_eq!(store.get_user_purchases(&user(8)), Vec::<u64>::new());
    let two = store.get_user(&user(2)).unwrap();
    assert_eq!(two.total_spent, 3 + 1 + 2);
    assert_eq!(two.prompts_purchased, 3);
    assert_eq!(store.get_user(&user(1)).unwrap().total_earnings, 1 + 1 + 2);
    assert_eq!(store.get_user(&user(3)).unwrap().total_earnings, 3);
}

#[test]
fn can_settle_sees_a_full_ledger() {
    let mut store = Store::new();
    store.create_user(&user(1), None, None, 1).unwrap();
    store.create_user(&user(2), None, None, 1).unwrap();
    store.create_user(&user(3), None, None, 1).unwrap();
    let big = store.create_prompt(&user(1), request("Big", true, u64::MAX), 2).unwrap().id;
    let small = store.create_prompt(&user(1), request("Small", true, 1), 2).unwrap().id;
    assert!(store.can_settle(&user(2), big));
    store.purchase_prompt(&user(2), big, 3).unwrap();
    assert_eq!(store.get_user(&user(1)).unwrap().total_earnings, u64::MAX);
    assert!(!store.can_settle(&user(3), small));
    assert!(!store.can_settle(&user(2), small));
    assert!(store.can_settle(&user(3), small + 10));
}

#[test]
fn private_content_is_denied_until_bought() {
    let (mut store, id) = store_with_prompt(false, 5);
    assert_eq!(store.get_prompt_content(&user(2), id), Err(MarketError::AccessDenied));
    store.purchase_prompt(&user(2), id, 40).unwrap();
    assert_eq!(store.get_prompt_content(&user(2), id), Ok("The content".to_string()));
    assert_eq!(store.get_prompt_content(&user(3), id), Err(MarketError::AccessDenied));
}

#[test]
fn content_is_open_to_the_author_and_when_public() {
    let (mut store, id) = store_with_prompt(false, 5);
    assert_eq!(store.get_prompt_content(&user(1), id), Ok("The content".to_string()));
    let open = store.create_prompt(&user(1), request("Open", true, 5), 21).unwrap().id;
    assert_eq!(store.get_prompt_content(&user(3), open), Ok("The content".to_string()));
    assert_eq!(store.get_prompt_content(&user(3), open + 1), Err(MarketError::NotFound));
}

#[test]
fn like_then_unlike_restores_the_count() {
    let (mut store, id) = store_with_prompt(true, 0);
    store.like_prompt(&user(3), id).unwrap();
    let before = store.get_prompt(id).unwrap();
    assert_eq!(before.likes, 1);
    assert_eq!(store.like_prompt(&user(2), id), Ok("Prompt liked successfully".to_string()));
    assert_eq!(store.get_prompt(id).unwrap().likes, 2);
    assert_eq!(store.unlike_prompt(&user(2), id), Ok("Prompt unliked successfully".to_string()));
    assert_eq!(store.get_prompt(id), Ok(before));
}

#[test]
fn like_twice_is_refused() {
    let (mut store, id) = store_with_prompt(true, 0);
    store.like_prompt(&user(2), id).unwrap();
    assert_eq!(store.like_prompt(&user(2), id), Err(MarketError::AlreadyLiked));
    assert_eq!(store.get_prompt(id).unwrap().likes, 1);
}

#[test]
fn unlike_without_like_is_refused() {
    let (mut store, id) = store_with_prompt(true, 0);
    assert_eq!(store.unlike_prompt(&user(2), id), Err(MarketError::NotLiked));
    store.like_prompt(&user(3), id).unwrap();
    assert_eq!(store.unlike_prompt(&user(2), id), Err(MarketError::NotLiked));
    assert_eq!(store.get_prompt(id).unwrap().likes, 1);
    store.unlike_prompt(&user(3), id).unwrap();
    assert_eq!(store.unlike_prompt(&user(3), id), Err(MarketError::NotLiked));
    assert_eq!(store.get_prompt(id).unwrap().likes, 0);
}

#[test]
fn like_and_unlike_of_an_unknown_prompt_are_not_found() {
    let (mut store, id) = store_with_prompt(true, 0);
    assert_eq!(store.like_prompt(&user(2), id + 1), Err(MarketError::NotFound));
    assert_eq!(store.unlike_prompt(&user(2), id + 1), Err(MarketError::NotFound));
}

#[test]
fn an_author_may_like_their_own_prompt() {
    let (mut store, id) = store_with_prompt(true, 0);
    assert!(store.like_prompt(&user(1), id).is_ok());
    assert_eq!(store.get_prompt(id).unwrap().likes, 1);
}

#[test]
fn ratings_of_distinct_callers_add_up_to_the_mean() {
    let (mut store, id) = store_with_prompt(true, 0);
    let values = [5u8, 3, 4, 1];
    for (n, v) in values.iter().enumerate() {
        let caller = user(10 + n as u8);
        assert_eq!(
            store.rate_prompt(&caller, RatePromptRequest { prompt_id: id, rating: *v }),
            Ok("Prompt rated successfully".to_string())
        );
    }
    let p = store.get_prompt(id).unwrap();
    assert_eq!(p.total_ratings, 4);
    assert_eq!(p.rating_sum, 13);
    assert_eq!(p.rating_tenths(), 32);
    let mean = p.rating_sum as f64 / p.total_ratings as f64;
    assert!((mean - 3.25).abs() < 1e-12);
}

#[test]
fn rating_again_replaces_the_earlier_value() {
    let (mut store, id) = store_with_prompt(true, 0);
    store.rate_prompt(&user(2), RatePromptRequest { prompt_id: id, rating: 2 }).unwrap();
    store.rate_prompt(&user(3), RatePromptRequest { prompt_id: id, rating: 4 }).unwrap();
    let once = store.get_prompt(id).unwrap();
    assert_eq!((once.total_ratings, once.rating_sum), (2, 6));
    store.rate_prompt(&user(2), RatePromptRequest { prompt_id: id, rating: 5 }).unwrap();
    let twice = store.get_prompt(id).unwrap();
    assert_eq!((twice.total_ratings, twice.rating_sum), (2, 9));
    assert_eq!(twice.rating_tenths(), 45);
    store.rate_prompt(&user(2), RatePromptRequest { prompt_id: id, rating: 1 }).unwrap();
    let thrice = store.get_prompt(id).unwrap();
    assert_eq!((thrice.total_ratings, thrice.rating_sum), (2, 5));
    assert_eq!(thrice.rating_tenths(), 25);
}

#[test]
fn rating_out_of_range_is_refused_first() {
    let (mut store, id) = store_with_prompt(true, 0);
    let bad = Err(MarketError::InvalidInput(InputError::RatingOutOfRange));
    assert_eq!(store.rate_prompt(&user(2), RatePromptRequest { prompt_id: id, rating: 0 }), bad);
    assert_eq!(store.rate_prompt(&user(2), RatePromptRequest { prompt_id: id, rating: 6 }), bad);
    assert_eq!(
        store.rate_prompt(&user(2), RatePromptRequest { prompt_id: id + 1, rating: 0 }),
        bad
    );
    assert_eq!(store.rate_prompt(&user(1), RatePromptRequest { prompt_id: id, rating: 255 }), bad);
    assert_eq!(store.get_prompt(id).unwrap().total_ratings, 0);
}

#[test]
fn rating_an_unknown_prompt_is_not_found() {
    let (mut store, id) = store_with_prompt(true, 0);
    assert_eq!(
        store.rate_prompt(&user(2), RatePromptRequest { prompt_id: id + 1, rating: 3 }),
        Err(MarketError::NotFound)
    );
}

#[test]
fn rating_own_prompt_is_refused() {
    let (mut store, id) = store_with_prompt(true, 0);
    assert_eq!(
        store.rate_prompt(&user(1), RatePromptRequest { prompt_id: id, rating: 5 }),
        Err(MarketError::SelfRating)
    );
    assert_eq!(store.get_prompt(id).unwrap().total_ratings, 0);
}

#[test]
fn rating_a_private_prompt_needs_a_purchase() {
    let (mut store, id) = store_with_prompt(false, 2);
    assert_eq!(
        store.rate_prompt(&user(2), RatePromptRequest { prompt_id: id, rating: 5 }),
        Err(MarketError::PurchaseRequired)
    );
    store.purchase_prompt(&user(2), id, 40).unwrap();
    assert!(store.rate_prompt(&user(2), RatePromptRequest { prompt_id: id, rating: 5 }).is_ok());
    let p = store.get_prompt(id).unwrap();
    assert_eq!((p.total_ratings, p.rating_sum, p.rating_tenths()), (1, 5, 50));
}

#[test]
fn rating_of_one_prompt_leaves_the_others() {
    let (mut store, first) = store_with_prompt(true, 0);
    let second = store.create_prompt(&user(1), request("Second", true, 0), 21).unwrap().id;
    store.rate_prompt(&user(2), RatePromptRequest { prompt_id: first, rating: 4 }).unwrap();
    store.rate_prompt(&user(2), RatePromptRequest { prompt_id: second, rating: 1 }).unwrap();
    store.rate_prompt(&user(2), RatePromptRequest { prompt_id: first, rating: 2 }).unwrap();
    let a = store.get_prompt(first).unwrap();
    let b = store.get_prompt(second).unwrap();
    assert_eq!((a.total_ratings, a.rating_sum), (1, 2));
    assert_eq!((b.total_ratings, b.rating_sum), (1, 1));
}

#[test]
fn public_prompts_come_in_order_of_creation() {
    let (mut store, first) = store_with_prompt(true, 0);
    let hidden = store.create_prompt(&user(2), request("Hidden", false, 0), 21).unwrap().id;
    let third = store.create_prompt(&user(2), request("Third", true, 0), 22).unwrap().id;
    let ids: Vec<u64> = store.get_public_prompts().iter().map(|p| p.id).collect();
    assert_eq!(ids, vec![first, third]);
    let of_two: Vec<u64> = store.get_user_prompts(&user(2)).iter().map(|p| p.id).collect();
    assert_eq!(of_two, vec![hidden, third]);
    let of_one: Vec<u64> = store.get_user_prompts(&user(1)).iter().map(|p| p.id).collect();
    assert_eq!(of_one, vec![first]);
    assert!(store.get_user_prompts(&user(3)).is_empty());
}

#[test]
fn envelope_of_a_success_and_of_a_failure() {
    let ok: ApiResponse<u64> = ApiResponse::from_result(Ok(7));
    assert!(ok.success);
    assert_eq!(ok.data, Some(7));
    assert_eq!(ok.error, None);
    let failed: ApiResponse<u64> = ApiResponse::from_result(Err(MarketError::AccessDenied));
    assert!(!failed.success);
    assert_eq!(failed.data, None);
    assert_eq!(failed.error, Some("Access denied. Purchase required.".to_string()));
    assert_eq!(ApiResponse::ok("x".to_string()).data, Some("x".to_string()));
    let refused: ApiResponse<String> = ApiResponse::fail(MarketError::NotLiked);
    assert_eq!(refused.error, Some("Prompt was not liked".to_string()));
}

#[test]
fn every_failure_has_its_message() {
    let cases = [
        (MarketError::InvalidInput(InputError::TitleEmpty), "Title cannot be empty"),
        (MarketError::InvalidInput(InputError::TitleTooLong), "Title cannot exceed 100 characters"),
        (
            MarketError::InvalidInput(InputError::DescriptionTooLong),
            "Description cannot exceed 500 characters",
        ),
        (MarketError::InvalidInput(InputError::ContentEmpty), "Content cannot be empty"),
        (
            MarketError::InvalidInput(InputError::ContentTooLong),
            "Content cannot exceed 10000 characters",
        ),
        (MarketError::InvalidInput(InputError::TooManyTags), "Cannot have more than 10 tags"),
        (MarketError::InvalidInput(InputError::TagTooLong), "Tag cannot exceed 30 characters"),
        (MarketError::InvalidInput(InputError::RatingOutOfRange), "Rating must be between 1 and 5"),
        (
            MarketError::InvalidInput(InputError::InvalidUsername),
            "Username must be between 1 and 50 characters",
        ),
        (MarketError::NotFound, "Record not found"),
        (MarketError::UserNotFound, "User not found. Please create a user first."),
        (MarketError::Unauthorized, "Unauthorized"),
        (MarketError::AlreadyExists, "User already exists"),
        (MarketError::AlreadyPurchased, "Prompt already purchased"),
        (MarketError::AlreadyLiked, "Prompt already liked"),
        (MarketError::NotLiked, "Prompt was not liked"),
        (MarketError::SelfPurchase, "Cannot purchase your own prompt"),
        (MarketError::SelfRating, "Cannot rate your own prompt"),
        (MarketError::PurchaseRequired, "Must purchase prompt to rate it"),
        (MarketError::AccessDenied, "Access denied. Purchase required."),
    ];
    for (error, text) in cases {
        assert_eq!(error.message(), text);
    }
}

#[test]
fn purchase_log_records_each_fact() {
    let (mut store, id) = store_with_prompt(false, 250);
    assert!(store.purchase_log().is_empty());
    store.purchase_prompt(&user(2), id, 40).unwrap();
    store.purchase_prompt(&user(3), id, 41).unwrap();
    assert_eq!(store.purchase_prompt(&user(3), id, 42), Err(MarketError::AlreadyPurchased));
    let log = store.purchase_log();
    assert_eq!(log.len(), 2);
    assert_eq!(log[0].prompt_id, id);
    assert_eq!(log[0].buyer, user(2));
    assert_eq!(log[0].seller, user(1));
    assert_eq!(log[0].price, 250);
    assert_eq!(log[0].timestamp, 40);
    assert_eq!(log[1].buyer, user(3));
    assert_eq!(log[1].timestamp, 41);
    assert_eq!(log[1].clone(), store.purchase_log().remove(1));
}

#[test]
fn purchase_logs_the_price_of_the_moment() {
    let (mut store, id) = store_with_prompt(false, 250);
    store.purchase_prompt(&user(2), id, 40).unwrap();
    let mut change = no_change(id);
    change.price = Some(7);
    store.update_prompt(&user(1), &change, 50).unwrap();
    store.purchase_prompt(&user(3), id, 60).unwrap();
    let prices: Vec<u64> = store.purchase_log().iter().map(|f| f.price).collect();
    assert_eq!(prices, vec![250, 7]);
    assert_eq!(store.get_user(&user(1)).unwrap().total_earnings, 257);
    assert_eq!(store.get_prompt(id).unwrap().purchases, 2);
}

#[test]
fn access_rules_follow_authorship_visibility_and_purchase() {
    let (mut store, id) = store_with_prompt(false, 1);
    let hidden = store.get_prompt(id).unwrap();
    assert!(store.can_view_content(&user(1), &hidden));
    assert!(!store.can_view_content(&user(2), &hidden));
    assert!(!store.can_rate(&user(1), &hidden));
    assert!(!store.can_rate(&user(2), &hidden));
    assert!(store.can_modify(&user(1), &hidden));
    assert!(!store.can_modify(&user(2), &hidden));
    store.purchase_prompt(&user(2), id, 5).unwrap();
    assert!(store.can_view_content(&user(2), &hidden));
    assert!(store.can_rate(&user(2), &hidden));
    assert!(!store.can_modify(&user(2), &hidden));
    assert!(!store.can_view_content(&user(3), &hidden));
    let open = store.create_prompt(&user(1), request("Open", true, 0), 21).unwrap();
    assert!(store.can_view_content(&user(3), &open));
    assert!(store.can_rate(&user(3), &open));
    assert!(!store.can_rate(&user(1), &open));
}

#[test]
fn ratings_and_likes_can_be_looked_up() {
    let (mut store, id) = store_with_prompt(true, 0);
    assert_eq!(store.get_rating(&user(2), id), None);
    assert!(!store.has_liked(&user(2), id));
    store.rate_prompt(&user(2), RatePromptRequest { prompt_id: id, rating: 4 }).unwrap();
    store.like_prompt(&user(2), id).unwrap();
    assert_eq!(store.get_rating(&user(2), id), Some(4));
    assert_eq!(store.get_rating(&user(3), id), None);
    assert_eq!(store.get_rating(&user(2), id + 1), None);
    assert!(store.has_liked(&user(2), id));
    store.rate_prompt(&user(2), RatePromptRequest { prompt_id: id, rating: 1 }).unwrap();
    assert_eq!(store.get_rating(&user(2), id), Some(1));
    store.unlike_prompt(&user(2), id).unwrap();
    assert!(!store.has_liked(&user(2), id));
    assert!(store.like_prompt(&user(2), id).is_ok());
}
