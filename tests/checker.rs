use sazen_tea_checker::config::{
    matcha_ingredients, parse_job_parameters, parse_u64, JobParameterError, JobParameters,
    RawSettings, Setting,
};
use sazen_tea_checker::extract::{
    extract_listings, info_entry, listings_from_parts, product_from_detail, product_from_fetch,
    product_from_parts, product_links, resolve_links, ExtractError,
};
use sazen_tea_checker::job::{
    products_from_pages, Action, FailurePolicy, IterationStep, JobError, SazenTeaCheckerJob,
};
use sazen_tea_checker::notify::{compose_notification, render_email_body, NotifyError};
use sazen_tea_checker::product::{
    filter_listings, filter_products, is_matching_product, Listing, Product,
};
use sazen_tea_checker::text::{contains_ignoring_case, split_at_char, trim};

fn s(v: &str) -> String {
    v.to_string()
}

fn product(name: &str, maker: &str, ingredients: &str) -> Product {
    Product {
        url: s("https://shop.example/p/1"),
        code: s("A-1"),
        name: s(name),
        maker: s(maker),
        ingredients: s(ingredients),
    }
}

fn listing(name: &str, description: &str) -> Listing {
    Listing { name: s(name), description: s(description) }
}

fn raw_settings() -> RawSettings {
    RawSettings {
        interval_minutes: Some(s("15")),
        products_url: Some(s("https://shop.example/collections/matcha")),
        matcha_brands: Some(s("maruyasu,marukyu")),
        smtp_url: Some(s("smtp.example")),
        smtp_user: Some(s("user")),
        smtp_password: Some(s("SECRET-REDACTED")),
        smtp_transcipient: Some(s("Checker <checker@example.com>")),
        smtp_recipient: Some(s("me@example.com")),
        smtp_notification_subject: Some(s("Matcha in stock")),
    }
}

fn parameters() -> JobParameters {
    parse_job_parameters(raw_settings()).unwrap()
}

const LISTING_PAGE: &str = "<html><body>\
    <div class=\"product\"><h2>Maruyasu Matcha</h2><p>fine koicha powder</p><a href=\"/p/maruyasu\">x</a></div>\
    <div class=\"product\"><h2>Black Tea</h2><p>robust blend</p><a href=\"/p/black\">y</a></div>\
    </body></html>";

const DETAIL_PAGE: &str = "<html><body>\
    <h1 itemprop=\"name\">Maruyasu Koicha 40g</h1>\
    <div id=\"product-info\">\
    <p>Item code: MK-40</p><p>Maker:  Maruyasu </p><p>Ingredients: Matcha (green tea powder)</p>\
    </div></body></html>";

#[test]
fn filter_is_case_insensitive() {
    assert!(contains_ignoring_case("MARUYASU Koicha", "maruyasu"));
    assert!(contains_ignoring_case("maruyasu koicha", "MARUYASU"));
    assert!(!contains_ignoring_case("Marukyu", "maruyasu"));
    let brands = vec![s("maruyasu")];
    let ingredients = vec![s("matcha")];
    assert!(is_matching_product(
        &product("MARUYASU Koicha", "someone", "Matcha"),
        &brands,
        &ingredients
    ));
}

#[test]
fn scenario_two_listings_first_matches() {
    let listings = extract_listings(LISTING_PAGE);
    assert_eq!(
        listings,
        vec![listing("Maruyasu Matcha", "fine koicha powder"), listing("Black Tea", "robust blend")]
    );
    let brands = vec![s("maruyasu")];
    let variants = vec![s("matcha"), s("koicha")];
    let found = filter_listings(&listings, &brands, &variants);
    assert_eq!(found, vec![listing("Maruyasu Matcha", "fine koicha powder")]);
}

#[test]
fn listing_missing_description_is_skipped() {
    let html = "<div class=\"product\"><h2>Only a name</h2></div>\
        <div class=\"product\"><p>only a description</p></div>\
        <div class=\"product\"><h2>Both</h2><p>here</p></div>";
    assert_eq!(extract_listings(html), vec![listing("Both", "here")]);
    let parts = vec![(Some(s("a")), None), (None, Some(s("b"))), (Some(s("c")), Some(s("d")))];
    assert_eq!(listings_from_parts(&parts), vec![listing("c", "d")]);
}

#[test]
fn page_without_listings_gives_nothing() {
    let html = "<html><body><p>No products today</p></body></html>";
    assert!(extract_listings(html).is_empty());
    let links = product_links(html, "https://shop.example/collections/matcha").unwrap();
    assert!(links.is_empty());
    let products = products_from_pages(links, vec![]);
    assert!(products.is_empty());
    let job = SazenTeaCheckerJob::new(parameters());
    assert!(matches!(job.plan_notification(&products), IterationStep::Done));
}

#[test]
fn filtering_twice_changes_nothing() {
    let products = vec![
        product("Maruyasu Matcha", "Maruyasu", "matcha"),
        product("Black Tea", "Other", "black tea"),
        product("Hojicha", "Maruyasu", "roasted tea"),
        product("Ceremonial", "Marukyu Koyamaen", "Green Tea Powder"),
    ];
    let brands = vec![s("maruyasu"), s("marukyu")];
    let ingredients = matcha_ingredients();
    let once = filter_products(&products, &brands, &ingredients);
    let twice = filter_products(&once, &brands, &ingredients);
    assert_eq!(once, twice);
    assert_eq!(once.len(), 2);
    assert_eq!(once[0].name, "Maruyasu Matcha");
    assert_eq!(once[1].name, "Ceremonial");

    let listings = vec![listing("Maruyasu Matcha", "koicha"), listing("Black Tea", "robust")];
    let variants = vec![s("matcha")];
    let l1 = filter_listings(&listings, &brands, &variants);
    assert_eq!(filter_listings(&l1, &brands, &variants), l1);
}

#[test]
fn filter_of_empty_input_is_empty() {
    let brands = vec![s("maruyasu")];
    assert!(filter_products(&vec![], &brands, &matcha_ingredients()).is_empty());
}

#[test]
fn links_resolve_against_scheme_and_host() {
    let links = product_links(LISTING_PAGE, "https://shop.example:8443/collections/matcha?page=2")
        .unwrap();
    assert_eq!(links, vec![s("https://shop.example/p/maruyasu"), s("https://shop.example/p/black")]);
}

#[test]
fn listing_without_anchor_has_no_link() {
    let html = "<div class=\"product\"><a>no href</a></div><div class=\"product\">none</div>\
        <div class=\"product\"><a href=\"/p/3\">3</a></div>";
    let links = product_links(html, "http://tea.example/").unwrap();
    assert_eq!(links, vec![s("http://tea.example/p/3")]);
    let hrefs = vec![None, Some(s("/a")), None, Some(s("/b"))];
    assert_eq!(resolve_links(&hrefs, "http://h"), vec![s("http://h/a"), s("http://h/b")]);
}

#[test]
fn listing_url_errors() {
    assert!(matches!(product_links(LISTING_PAGE, "not a url"), Err(ExtractError::InvalidUrl(_))));
    assert!(matches!(
        product_links(LISTING_PAGE, "mailto:someone@example.com"),
        Err(ExtractError::OpaqueUrl)
    ));
}

#[test]
fn detail_page_is_read() {
    let p = product_from_detail(s("https://shop.example/p/mk"), DETAIL_PAGE).unwrap();
    assert_eq!(p.url, "https://shop.example/p/mk");
    assert_eq!(p.name, "Maruyasu Koicha 40g");
    assert_eq!(p.code, "MK-40");
    assert_eq!(p.maker, "Maruyasu");
    assert_eq!(p.ingredients, "Matcha (green tea powder)");
}

#[test]
fn detail_page_missing_fields_get_placeholders() {
    let html = "<h1 itemprop=\"name\">Mystery</h1><div id=\"product-info\"><p>Origin: Uji</p>\
        <p>Maker</p></div>";
    let p = product_from_detail(s("u"), html).unwrap();
    assert_eq!(p.name, "Mystery");
    assert_eq!(p.code, "BAD_CODE");
    assert_eq!(p.maker, "BAD_VALUE_1");
    assert_eq!(p.ingredients, "BAD_INGREDIENTS");
}

#[test]
fn detail_page_without_title_or_info_is_skipped() {
    assert!(product_from_detail(s("u"), "<div id=\"product-info\"><p>Maker: X</p></div>").is_none());
    assert!(product_from_detail(s("u"), "<h1 itemprop=\"name\">T</h1>").is_none());
    assert!(product_from_fetch(s("u"), Err(s("timed out"))).is_none());
    assert!(product_from_fetch(s("u"), Ok(s(DETAIL_PAGE))).is_some());
}

#[test]
fn info_entries_split_on_first_colon() {
    assert_eq!(info_entry("  Maker :  Maruyasu  ", 0), (s("Maker"), s("Maruyasu")));
    assert_eq!(info_entry("Note: a: b", 3), (s("Note"), s("a: b")));
    assert_eq!(info_entry("no colon", 12), (s("no colon"), s("BAD_VALUE_12")));
    assert_eq!(info_entry(" : value", 7), (s("BAD_KEY_7"), s("value")));
    assert_eq!(info_entry("Maker:", 2), (s("Maker"), s("")));
}

#[test]
fn later_info_entry_wins() {
    let texts = vec![s("Maker: First"), s("Maker: Second"), s("Item code: 9")];
    let p = product_from_parts(s("u"), s("n"), &texts);
    assert_eq!(p.maker, "Second");
    assert_eq!(p.code, "9");
    assert_eq!(p.ingredients, "BAD_INGREDIENTS");
}

#[test]
fn pages_are_read_in_order_and_failures_skipped() {
    let links = vec![s("l1"), s("l2"), s("l3")];
    let pages = vec![Ok(s(DETAIL_PAGE)), Err(s("boom")), Ok(s("<h1 itemprop=\"name\">B</h1><div id=\"product-info\"></div>"))];
    let products = products_from_pages(links, pages);
    assert_eq!(products.len(), 2);
    assert_eq!(products[0].url, "l1");
    assert_eq!(products[1].url, "l3");
    assert_eq!(products[1].name, "B");
    assert_eq!(products[1].maker, "BAD_MAKER");
}

#[test]
fn email_body_lists_each_product_in_order() {
    let mut a = product("Maruyasu Matcha", "Maruyasu", "matcha");
    a.code = s("M1");
    a.url = s("https://shop.example/p/a");
    let mut b = product("Marukyu Ceremonial", "Marukyu", "matcha");
    b.code = s("K2");
    b.url = s("https://shop.example/p/b");
    let body = render_email_body(&vec![a, b]);
    let expected = "<p>Check out these matcha products!</p>\n\n<ul>\n\
        <li><strong>Maruyasu Matcha (Item code 'M1')</strong>: Maruyasu\n\
        <ul><li><a href=\"https://shop.example/p/a\">https://shop.example/p/a</a></li></ul>\n\
        <li><strong>Marukyu Ceremonial (Item code 'K2')</strong>: Marukyu\n\
        <ul><li><a href=\"https://shop.example/p/b\">https://shop.example/p/b</a></li></ul>\n\
        </ul>\n\n<p>Have a great day!</p>";
    assert_eq!(body, expected);
    assert!(body.find("Maruyasu Matcha").unwrap() < body.find("Marukyu Ceremonial").unwrap());
}

#[test]
fn email_body_of_no_products() {
    assert_eq!(
        render_email_body(&vec![]),
        "<p>Check out these matcha products!</p>\n\n<ul>\n</ul>\n\n<p>Have a great day!</p>"
    );
}

#[test]
fn notification_address_errors() {
    let ps = vec![product("Maruyasu Matcha", "Maruyasu", "matcha")];
    assert!(matches!(
        compose_notification("not an address", "me@example.com", "s", &ps),
        Err(NotifyError::InvalidSender(_))
    ));
    assert!(matches!(
        compose_notification("me@example.com", "nope", "s", &ps),
        Err(NotifyError::InvalidRecipient(_))
    ));
    assert!(compose_notification("Checker <c@example.com>", "me@example.com", "s", &ps).is_ok());
}

#[test]
fn job_email_uses_configured_addresses() {
    let mut params = parameters();
    params.smtp_recipient = s("broken");
    let job = SazenTeaCheckerJob::new(params);
    let ps = vec![product("Maruyasu Matcha", "Maruyasu", "matcha")];
    assert!(matches!(job.compose_email(&ps), Err(NotifyError::InvalidRecipient(_))));
}

#[test]
fn no_match_means_no_notification_and_sleep() {
    let job = SazenTeaCheckerJob::new(parameters());
    let ps = vec![product("Black Tea", "Other", "black tea")];
    assert!(matches!(job.plan_notification(&ps), IterationStep::Done));
    assert!(matches!(job.after_iteration(Ok(())), Action::Sleep(900)));
}

#[test]
fn match_means_notification() {
    let job = SazenTeaCheckerJob::new(parameters());
    let ps = vec![
        product("Black Tea", "Other", "black tea"),
        product("Koicha", "MARUYASU", "Green tea powder"),
    ];
    match job.plan_notification(&ps) {
        IterationStep::Notify(v) => {
            assert_eq!(v.len(), 1);
            assert_eq!(v[0].name, "Koicha");
        }
        IterationStep::Done => panic!("expected a notification"),
    }
}

#[test]
fn failed_iteration_stops_the_job() {
    let job = SazenTeaCheckerJob::new(parameters());
    let action = job.after_iteration(Err(JobError::Notify(NotifyError::Send(s("535 auth rejected")))));
    match action {
        Action::Stop(JobError::Notify(NotifyError::Send(m))) => assert_eq!(m, "535 auth rejected"),
        other => panic!("unexpected {:?}", other),
    }
    let lenient = SazenTeaCheckerJob::new(parameters()).with_failure_policy(FailurePolicy::SkipIteration);
    assert!(matches!(lenient.after_iteration(Err(JobError::Fetch(s("dns")))), Action::Sleep(900)));
}

#[test]
fn settings_are_parsed() {
    let p = parameters();
    assert_eq!(p.interval_minutes, 15);
    assert_eq!(p.products_url, "https://shop.example/collections/matcha");
    assert_eq!(p.matcha_brands, vec![s("maruyasu"), s("marukyu")]);
    assert_eq!(p.matcha_ingredients, vec![s("matcha"), s("green tea powder")]);
    assert_eq!(p.smtp_transcipient, "Checker <checker@example.com>");
    assert_eq!(p.smtp_notification_subject, "Matcha in stock");
    let job = SazenTeaCheckerJob::new(p);
    assert_eq!(job.sleep_seconds(), 900);
    assert_eq!(job.products_url(), "https://shop.example/collections/matcha");
}

#[test]
fn settings_errors() {
    let mut raw = raw_settings();
    raw.interval_minutes = None;
    raw.products_url = None;
    assert_eq!(
        parse_job_parameters(raw).err(),
        Some(JobParameterError::NotPresent(Setting::IntervalMinutes))
    );
    let mut raw = raw_settings();
    raw.interval_minutes = Some(s("ten"));
    assert_eq!(
        parse_job_parameters(raw).err(),
        Some(JobParameterError::InvalidFormat(Setting::IntervalMinutes))
    );
    let mut raw = raw_settings();
    raw.interval_minutes = Some(s("0"));
    assert_eq!(
        parse_job_parameters(raw).err(),
        Some(JobParameterError::InvalidFormat(Setting::IntervalMinutes))
    );
    let mut raw = raw_settings();
    raw.smtp_password = None;
    raw.smtp_recipient = None;
    assert_eq!(
        parse_job_parameters(raw).err(),
        Some(JobParameterError::NotPresent(Setting::SmtpPassword))
    );
    let mut raw = raw_settings();
    raw.smtp_notification_subject = None;
    assert_eq!(
        parse_job_parameters(raw).err(),
        Some(JobParameterError::NotPresent(Setting::SmtpNotificationSubject))
    );
}

#[test]
fn settings_error_descriptions() {
    assert_eq!(
        JobParameterError::NotPresent(Setting::SmtpUrl).describe(),
        "Job parameter 'SMTP_URL' not found"
    );
    assert_eq!(
        JobParameterError::InvalidFormat(Setting::IntervalMinutes).describe(),
        "Job parameter 'JOB_INTERVAL_MINUTES' is invalid format"
    );
    assert_eq!(Setting::SmtpTranscipient.name(), "SMTP_TRANSCIPIENT");
}

#[test]
fn unsigned_numbers_parse_like_std() {
    for text in ["0", "7", "+42", "0015", "18446744073709551615", "18446744073709551616", "", "+", "-1", " 1", "1a", "99999999999999999999"] {
        assert_eq!(parse_u64(text), text.parse::<u64>().ok(), "{}", text);
    }
}

#[test]
fn brands_split_on_commas() {
    assert_eq!(split_at_char("a,b,,c", ','), vec![s("a"), s("b"), s(""), s("c")]);
    assert_eq!(split_at_char("", ','), vec![s("")]);
    assert_eq!(split_at_char("one", ','), vec![s("one")]);
    assert_eq!(split_at_char("x,", ','), vec![s("x"), s("")]);
}

#[test]
fn trim_matches_std() {
    for text in [
        "",
        "   ",
        "  Maker  ",
        "\tItem code\n",
        "\u{3000}Koicha\u{a0}",
        "\u{2000}\u{200a}x y\u{205f}\u{85}",
        "no-space",
        "\u{200b}zero width\u{200b}",
        "\r\u{b}\u{c} inner  space \u{2028}\u{2029}\u{202f}\u{1680}",
    ] {
        assert_eq!(trim(text), text.trim(), "{:?}", text);
    }
}

#[test]
fn info_entry_trims_unicode_space() {
    assert_eq!(info_entry("Item code:\u{3000}826\u{a0}", 0), (s("Item code"), s("826")));
}
