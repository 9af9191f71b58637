use ring_core::privacy_filter::{apply_filters, default_true, PrivacyFilters};

#[test]
fn test_phone_filter() {
    let filters = PrivacyFilters::default();
    let result = apply_filters("我的手机号是 13812345678 请联系我", &filters);
    assert!(result.contains("[PHONE]"));
    assert!(!result.contains("13812345678"));
}

#[test]
fn test_phone_with_country_code() {
    let filters = PrivacyFilters::default();
    let result = apply_filters("call +8613900001234 ok", &filters);
    assert!(result.contains("[PHONE]"));
}

#[test]
fn test_id_card_18_digits() {
    let filters = PrivacyFilters::default();
    let result = apply_filters("身份证号 110101199001011234 在这里", &filters);
    assert!(result.contains("[ID_CARD]"));
    assert!(!result.contains("110101199001011234"));
}

#[test]
fn test_id_card_with_x() {
    let filters = PrivacyFilters::default();
    let result = apply_filters("证件 11010119900101123X 请查收", &filters);
    assert!(result.contains("[ID_CARD]"));
}

#[test]
fn test_email_filter() {
    let filters = PrivacyFilters::default();
    let result = apply_filters("联系邮箱 test@example.com 谢谢", &filters);
    assert!(result.contains("[EMAIL]"));
    assert!(!result.contains("test@example.com"));
}

#[test]
fn test_email_various_domains() {
    let filters = PrivacyFilters::default();
    let result = apply_filters("user.name+tag@sub.domain.co.uk", &filters);
    assert!(result.contains("[EMAIL]"));
}

#[test]
fn test_bank_card_16_digits() {
    let filters = PrivacyFilters::default();
    let result = apply_filters("卡号 6222021234567890 到期", &filters);
    assert!(result.contains("[BANK_CARD]"));
    assert!(!result.contains("6222021234567890"));
}

#[test]
fn test_bank_card_19_digits() {
    let filters = PrivacyFilters::default();
    let result = apply_filters("银行卡 6222021234567890123 请查收", &filters);
    assert!(result.contains("[BANK_CARD]"));
}

#[test]
fn test_empty_string() {
    let filters = PrivacyFilters::default();
    let result = apply_filters("", &filters);
    assert_eq!(result, "");
}

#[test]
fn test_no_match() {
    let filters = PrivacyFilters::default();
    let result = apply_filters("这是一段普通文本，没有敏感信息。", &filters);
    assert_eq!(result, "这是一段普通文本，没有敏感信息。");
}

#[test]
fn test_mixed_content() {
    let filters = PrivacyFilters::default();
    let input =
        "用户邮箱 a@b.com 手机 13900001111 身份证 110101199001011234 卡号 6222021234567890";
    let result = apply_filters(input, &filters);
    assert!(result.contains("[EMAIL]"));
    assert!(result.contains("[PHONE]"));
    assert!(result.contains("[ID_CARD]"));
    assert!(result.contains("[BANK_CARD]"));
}

#[test]
fn test_filter_disabled() {
    let filters = PrivacyFilters {
        phone: false,
        id_card: false,
        email: false,
        bank_card: false,
    };
    let input = "手机 13900001111 邮箱 a@b.com";
    let result = apply_filters(input, &filters);
    assert_eq!(result, input);
}

#[test]
fn test_partial_filter_disabled() {
    let filters = PrivacyFilters {
        phone: true,
        id_card: false,
        email: false,
        bank_card: false,
    };
    let input = "手机 13900001111 邮箱 a@b.com";
    let result = apply_filters(input, &filters);
    assert!(result.contains("[PHONE]"));
    assert!(result.contains("a@b.com"));
}

#[test]
fn default_filters_enable_everything() {
    let f = PrivacyFilters::default();
    assert!(f.phone && f.id_card && f.email && f.bank_card);
    assert!(default_true());
}

#[test]
fn phone_mask_exact_output() {
    let filters = PrivacyFilters::default();
    assert_eq!(apply_filters("13812345678", &filters), " [PHONE] ");
}

#[test]
fn a_match_takes_the_space_it_shares() {
    let filters = PrivacyFilters::default();
    let result = apply_filters("13812345678 13912345678", &filters);
    assert_eq!(result, " [PHONE] 13912345678");
}

#[test]
fn every_other_number_of_a_spaced_run_is_masked() {
    let filters = PrivacyFilters::default();
    let result = apply_filters("电话 13812345678 13912345678 13712345678 结束", &filters);
    assert_eq!(result, "电话 [PHONE] 13912345678 [PHONE] 结束");
}

#[test]
fn card_numbers_sharing_a_space() {
    let filters = PrivacyFilters::default();
    let result = apply_filters("6222021234567890 6222021234567891", &filters);
    assert_eq!(result, " [BANK_CARD] 6222021234567891");
}
