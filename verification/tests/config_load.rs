use nginx_pool::config_load::{
    build_config, get_config, key_of, settled, ConfigError, Setting, MAX_INI_BYTES,
};

const INI: &str = "[env]\nNGINX_CONF_PATH = /etc/nginx/pool.conf\nNGINX_CONF_BACKUP_PATH = /etc/nginx/pool.conf.bak\nENCLAVE_IMAGE_INITIAL_USED_CAPACITY_MB = 2048\nALLOTMENT_PER_WORKERD_MB = 512\nPORT = 8080\n";

fn found(value: &str) -> Result<Option<String>, String> {
    Ok(Some(value.to_string()))
}

#[test]
fn settings_are_read_from_the_section_env() {
    let config = get_config(INI).unwrap();
    assert_eq!(config.nginx_conf_path, "/etc/nginx/pool.conf");
    assert_eq!(config.nginx_conf_backup_path, "/etc/nginx/pool.conf.bak");
    assert_eq!(config.enclave_image_initial_used_capacity_mb, 2048);
    assert_eq!(config.allotment_per_workerd_mb, 512);
    assert_eq!(config.port, 8080);
}

#[test]
fn keys_are_found_whatever_their_case() {
    let text = INI.replace("PORT", "port").replace("[env]", "[ENV]");
    assert_eq!(get_config(&text).unwrap().port, 8080);
}

#[test]
fn comments_and_other_sections_do_not_count() {
    let text = format!("; settings\n[other]\nPORT = 1\n{INI}# end\n");
    assert_eq!(get_config(&text).unwrap().port, 8080);
}

#[test]
fn a_missing_key_is_named() {
    let text = INI.replace("PORT = 8080\n", "");
    assert_eq!(get_config(&text).unwrap_err(), ConfigError::Missing(Setting::Port));
    let text = INI.replace("[env]", "[prod]");
    assert_eq!(get_config(&text).unwrap_err(), ConfigError::Missing(Setting::NginxConfPath));
    assert_eq!(get_config("").unwrap_err(), ConfigError::Missing(Setting::NginxConfPath));
}

#[test]
fn a_key_without_value_is_missing() {
    let text = INI.replace("PORT = 8080", "PORT");
    assert_eq!(get_config(&text).unwrap_err(), ConfigError::Missing(Setting::Port));
}

#[test]
fn a_value_that_is_no_number_is_named() {
    let text = INI.replace("2048", "2 GB");
    assert_eq!(
        get_config(&text).unwrap_err(),
        ConfigError::NotANumber(Setting::InitialUsedCapacity)
    );
    let text = INI.replace("8080", "65536");
    assert_eq!(get_config(&text).unwrap_err(), ConfigError::NotANumber(Setting::Port));
    let text = INI.replace("512", "-512");
    assert_eq!(
        get_config(&text).unwrap_err(),
        ConfigError::NotANumber(Setting::AllotmentPerWorker)
    );
}

#[test]
fn an_allotment_of_zero_is_refused() {
    let text = INI.replace("512", "0");
    assert_eq!(get_config(&text).unwrap_err(), ConfigError::ZeroAllotment);
}

#[test]
fn a_text_that_is_no_ini_file_is_malformed() {
    let error = get_config("[env\nPORT = 1\n").unwrap_err();
    assert!(matches!(error, ConfigError::Malformed(_)));
}

#[test]
fn the_first_failing_setting_decides() {
    assert_eq!(
        build_config(Ok(None), Ok(None), found("x"), found("0"), Ok(None)).unwrap_err(),
        ConfigError::Missing(Setting::NginxConfPath)
    );
    assert_eq!(
        build_config(found("a"), found("b"), found("x"), found("0"), Ok(None)).unwrap_err(),
        ConfigError::NotANumber(Setting::InitialUsedCapacity)
    );
    assert_eq!(
        build_config(found("a"), found("b"), found("1"), found("0"), Ok(None)).unwrap_err(),
        ConfigError::ZeroAllotment
    );
    assert_eq!(
        build_config(found("a"), found("b"), found("1"), found("1"), Ok(None)).unwrap_err(),
        ConfigError::Missing(Setting::Port)
    );
    assert_eq!(
        build_config(Err("line 1".to_string()), found("b"), found("1"), found("1"), found("1"))
            .unwrap_err(),
        ConfigError::Malformed("line 1".to_string())
    );
}

#[test]
fn settings_are_made_of_five_values() {
    let config =
        build_config(found("a"), found("b"), found("+7"), found("18446744073709551615"), found("0"))
            .unwrap();
    assert_eq!(config.nginx_conf_path, "a");
    assert_eq!(config.nginx_conf_backup_path, "b");
    assert_eq!(config.enclave_image_initial_used_capacity_mb, 7);
    assert_eq!(config.allotment_per_workerd_mb, u64::MAX);
    assert_eq!(config.port, 0);
}

#[test]
fn each_setting_has_its_key() {
    assert_eq!(key_of(Setting::NginxConfPath), "NGINX_CONF_PATH");
    assert_eq!(key_of(Setting::NginxConfBackupPath), "NGINX_CONF_BACKUP_PATH");
    assert_eq!(key_of(Setting::InitialUsedCapacity), "ENCLAVE_IMAGE_INITIAL_USED_CAPACITY_MB");
    assert_eq!(key_of(Setting::AllotmentPerWorker), "ALLOTMENT_PER_WORKERD_MB");
    assert_eq!(key_of(Setting::Port), "PORT");
}

#[test]
fn a_port_beyond_sixteen_bits_is_no_port() {
    let text = "[env]\nNGINX_CONF_PATH=/etc/nginx/nginx.conf\nNGINX_CONF_BACKUP_PATH=/etc/nginx/nginx.conf.bak\nENCLAVE_IMAGE_INITIAL_USED_CAPACITY_MB=2048\nALLOTMENT_PER_WORKERD_MB=512\nPORT=70000\n";
    assert_eq!(get_config(text).unwrap_err(), ConfigError::NotANumber(Setting::Port));
}

#[test]
fn a_text_beyond_the_limit_is_refused_unread() {
    let text = "\n".repeat(MAX_INI_BYTES + 1);
    assert_eq!(get_config(&text).unwrap_err(), ConfigError::TooLong);
}

#[test]
fn settings_that_were_made_are_handed_out() {
    let state = settled(get_config(INI));
    assert_eq!(state.nginx_conf_path, "/etc/nginx/pool.conf");
    assert_eq!(state.port, 8080);
}
