use weather_pipeline::aggregate::aggregate_monthly;
use weather_pipeline::dataset::{Column, ColumnValues, Dataset};
use weather_pipeline::date::parse_date;
use weather_pipeline::gateway::{build_exchange, check_credential, decode_reply, GatewayError, Role};
use weather_pipeline::num::{parse_milli, render_milli};
use weather_pipeline::parser::num_field;
use weather_pipeline::prompt::{monthly_prompt, render_table, table_row_count};
use weather_pipeline::reduce::{mean_milli, mode_text};
use weather_pipeline::report::{
    assemble_current_weather, assemble_prediction_report, assemble_weather_report, calculate_avg,
    generate_environmental_report, get_min_temp, prepare_prediction_request,
    prepare_weather_request, render_current_weather,
};
use weather_pipeline::select::{select_location, select_location_month, SelectError};

fn texts(vals: &[Option<&str>]) -> ColumnValues {
    ColumnValues::Texts(vals.iter().map(|v| (*v).map(|s| s.to_string())).collect())
}

fn nums(vals: &[Option<i64>]) -> ColumnValues {
    ColumnValues::Nums(vals.to_vec())
}

fn col(name: &str, values: ColumnValues) -> Column {
    Column { name: name.to_string(), values }
}

/// A small weather dataset: two Sydney rows in March 2020, one in April, one
/// Albury row, one row with an unparseable date.
fn sydney_dataset() -> Dataset {
    Dataset {
        columns: vec![
            col(
                "Location",
                texts(&[
                    Some("Sydney"),
                    Some("Sydney"),
                    Some("Sydney"),
                    Some("Albury"),
                    Some("Sydney"),
                ]),
            ),
            col(
                "Date",
                texts(&[
                    Some("2020-03-01"),
                    Some("2020-03-15"),
                    Some("2020-04-02"),
                    Some("2020-03-01"),
                    Some("not-a-date"),
                ]),
            ),
            col(
                "MinTemp",
                nums(&[Some(10_000), Some(12_000), Some(20_000), Some(5_000), Some(7_000)]),
            ),
            col(
                "MaxTemp",
                nums(&[Some(20_000), Some(22_000), Some(30_000), Some(15_000), Some(17_000)]),
            ),
            col(
                "WindGustDir",
                texts(&[Some("N"), Some("S"), Some("N"), Some("W"), Some("E")]),
            ),
            col(
                "WindGustSpeed",
                nums(&[Some(30_000), None, Some(40_000), Some(20_000), Some(10_000)]),
            ),
            col("Rainfall", nums(&[Some(0), Some(1_000), None, Some(2_000), Some(3_000)])),
        ],
    }
}

#[test]
fn absent_location_yields_empty_selection() {
    let ds = sydney_dataset();
    let r = select_location(&ds, "Location", "Perth");
    assert!(matches!(r, Err(SelectError::EmptySelection)));
}

#[test]
fn absent_location_monthly_default_report_embeds_location() {
    let ds = sydney_dataset();
    let r = prepare_weather_request(&ds, "Perth", 2020, 3);
    match r {
        Err(rep) => {
            assert_eq!(rep.report, "No data available for Perth in 3/2020.");
            assert!(rep.min_temp.is_empty());
            assert!(rep.max_temp.is_empty());
            assert_eq!(rep.wind_direction, "");
            assert!(rep.wind_speed.is_empty());
            assert!(rep.rainfall.is_empty());
        },
        Ok(_) => panic!("selection for an absent location must not be prepared"),
    }
}

#[test]
fn missing_column_is_reported() {
    let ds = Dataset { columns: vec![col("Other", nums(&[Some(1)]))] };
    let r = prepare_weather_request(&ds, "Sydney", 2020, 3);
    match r {
        Err(rep) => assert_eq!(rep.report, "Required column not found."),
        Ok(_) => panic!("a dataset without the schema columns must not be prepared"),
    }
}

#[test]
fn mean_of_only_nulls_is_null() {
    let cells: Vec<Option<i64>> = vec![None, None, None];
    assert_eq!(mean_milli(&cells), None);
}

#[test]
fn mean_ignores_nulls_and_truncates_towards_zero() {
    assert_eq!(mean_milli(&vec![Some(10_000), None, Some(10_001)]), Some(10_000));
    assert_eq!(mean_milli(&vec![Some(-3), Some(-4)]), Some(-3));
    assert_eq!(mean_milli(&vec![]), None);
}

#[test]
fn mode_tie_broken_by_first_occurrence() {
    let cells = vec![
        Some("N".to_string()),
        Some("S".to_string()),
        Some("N".to_string()),
    ];
    assert_eq!(mode_text(&cells), Some("N".to_string()));
    let tie = vec![
        Some("S".to_string()),
        Some("N".to_string()),
        Some("N".to_string()),
        Some("S".to_string()),
    ];
    assert_eq!(mode_text(&tie), Some("S".to_string()));
    assert_eq!(mode_text(&vec![None, None]), None);
}

#[test]
fn empty_reply_yields_all_default_report() {
    let rep = assemble_prediction_report(Ok(String::new()));
    assert_eq!(rep.min_temp, vec![0i64; 12]);
    assert_eq!(rep.wind_direction, vec![String::new(); 12]);
    assert_eq!(rep.wind_speed, vec![0i64; 12]);
    assert_eq!(rep.rainfall, vec![0i64; 12]);
}

#[test]
fn non_numeric_tokens_are_dropped_not_zero_filled() {
    let vals = num_field("MinTemp: 10,20,abc,30", "MinTemp");
    assert_eq!(vals, vec![10_000, 20_000, 30_000]);
}

#[test]
fn absent_key_pads_twelve_zeros_and_last_duplicate_wins() {
    assert_eq!(num_field("Rainfall: 1,2", "WindSpeed"), vec![0i64; 12]);
    assert_eq!(num_field("MinTemp: 1\nMinTemp: 2", "MinTemp"), vec![2_000]);
    assert_eq!(num_field("MinTemp:", "MinTemp"), Vec::<i64>::new());
}

#[test]
fn selection_for_sydney_march_returns_exactly_those_rows() {
    let ds = sydney_dataset();
    let sel = select_location_month(&ds, "Location", "Date", "Sydney", 2020, 3).unwrap();
    assert_eq!(sel.height(), 2);
    let report = assemble_weather_report(&sel, Ok("narrative".to_string()));
    assert_eq!(report.report, "narrative");
    assert_eq!(report.min_temp, vec![Some(10_000), Some(12_000)]);
    assert_eq!(report.max_temp, vec![Some(20_000), Some(22_000)]);
    assert_eq!(report.wind_direction, "N");
    assert_eq!(report.wind_speed, vec![Some(30_000), None]);
    assert_eq!(report.rainfall, vec![Some(0), Some(1_000)]);
}

#[test]
fn transport_failure_keeps_dataset_fields_populated() {
    let ds = sydney_dataset();
    let req = prepare_weather_request(&ds, "Sydney", 2020, 3).unwrap_or_else(|_| {
        panic!("Sydney has rows in March 2020");
    });
    let report = assemble_weather_report(&req.selection, Err(GatewayError::TransportFailure));
    assert_eq!(report.min_temp, vec![Some(10_000), Some(12_000)]);
    assert_eq!(report.report, "Error in API call: transport failure");
    let prediction = assemble_prediction_report(Err(GatewayError::TransportFailure));
    assert_eq!(prediction.min_temp, vec![0i64; 12]);
    assert_eq!(prediction.wind_direction, vec![String::new(); 12]);
    assert!(!get_min_temp(&req.selection).is_empty());
}

#[test]
fn rendered_table_reparses_to_same_row_count() {
    let ds = sydney_dataset();
    let agg = aggregate_monthly(&ds, "Location", "Date").unwrap();
    let table = render_table(&agg);
    assert_eq!(table_row_count(&table), agg.height());
    let sel = select_location(&ds, "Location", "Sydney").unwrap();
    let table2 = render_table(&sel);
    assert_eq!(table_row_count(&table2), sel.height());
}

#[test]
fn aggregation_buckets_by_month_in_first_seen_order() {
    let ds = sydney_dataset();
    let sel = select_location(&ds, "Location", "Sydney").unwrap();
    let agg = aggregate_monthly(&sel, "Location", "Date").unwrap();
    // The row with the bad date drops; buckets are 2020-03 then 2020-04.
    assert_eq!(agg.height(), 2);
    assert_eq!(agg.columns.len(), 6);
    assert_eq!(agg.columns[0].name, "Year-Month");
    match &agg.columns[0].values {
        ColumnValues::Texts(v) => {
            assert_eq!(
                v,
                &vec![Some("2020-03".to_string()), Some("2020-04".to_string())]
            );
        },
        _ => panic!("bucket column must be text"),
    }
    assert_eq!(agg.columns[1].name, "MinTemp");
    match &agg.columns[1].values {
        ColumnValues::Nums(v) => assert_eq!(v, &vec![Some(11_000), Some(20_000)]),
        _ => panic!("MinTemp stays numeric"),
    }
    assert_eq!(agg.columns[3].name, "WindGustDir");
    match &agg.columns[3].values {
        ColumnValues::Texts(v) => {
            assert_eq!(v, &vec![Some("N".to_string()), Some("N".to_string())]);
        },
        _ => panic!("WindGustDir stays text"),
    }
    // A bucket whose numeric cells are all null aggregates to null.
    match &agg.columns[4].values {
        ColumnValues::Nums(v) => assert_eq!(v[0], Some(30_000)),
        _ => panic!("WindGustSpeed stays numeric"),
    }
}

#[test]
fn all_null_bucket_aggregates_to_null() {
    let ds = Dataset {
        columns: vec![
            col("Location", texts(&[Some("X"), Some("X")])),
            col("Date", texts(&[Some("2020-01-01"), Some("2020-01-02")])),
            col("Press", nums(&[None, None])),
        ],
    };
    let agg = aggregate_monthly(&ds, "Location", "Date").unwrap();
    assert_eq!(agg.height(), 1);
    match &agg.columns[1].values {
        ColumnValues::Nums(v) => assert_eq!(v, &vec![None]),
        _ => panic!("Press stays numeric"),
    }
}

#[test]
fn prediction_request_prompt_names_the_location() {
    let ds = sydney_dataset();
    let req = prepare_prediction_request(&ds, "Sydney").unwrap_or_else(|_| {
        panic!("Sydney has valid rows");
    });
    assert!(req.prompt.starts_with("Below is the weather data for Sydney:\n\n"));
    assert_eq!(req.aggregated.height(), 2);
    let empty = prepare_prediction_request(&ds, "Perth");
    match empty {
        Err(rep) => assert_eq!(rep.min_temp, vec![0i64; 12]),
        Ok(_) => panic!("an absent location must yield the default report"),
    }
}

#[test]
fn monthly_prompt_has_preamble_and_table() {
    let ds = sydney_dataset();
    let sel = select_location_month(&ds, "Location", "Date", "Sydney", 2020, 3).unwrap();
    let p = monthly_prompt("Sydney", 2020, 3, &sel);
    assert!(p.starts_with("Below is the weather data for Sydney during 3/2020:\n\n"));
    assert!(p.contains("Location,Date,MinTemp,MaxTemp,WindGustDir,WindGustSpeed,Rainfall\n"));
    assert!(p.contains("Sydney,2020-03-01,10.000,20.000,N,30.000,0.000\n"));
    assert!(p.contains("Sydney,2020-03-15,12.000,22.000,S,,1.000\n"));
}

#[test]
fn numeric_token_grammar() {
    assert_eq!(parse_milli("10"), Some(10_000));
    assert_eq!(parse_milli("10.5"), Some(10_500));
    assert_eq!(parse_milli("-3.25"), Some(-3_250));
    assert_eq!(parse_milli("1.2345"), Some(1_234));
    assert_eq!(parse_milli("0.001"), Some(1));
    assert_eq!(parse_milli("abc"), None);
    assert_eq!(parse_milli(""), None);
    assert_eq!(parse_milli("10."), None);
    assert_eq!(parse_milli(".5"), None);
    assert_eq!(parse_milli("-"), None);
    assert_eq!(parse_milli("1e5"), None);
}

#[test]
fn milli_rendering_is_canonical() {
    assert_eq!(render_milli(10_500), "10.500");
    assert_eq!(render_milli(-10_500), "-10.500");
    assert_eq!(render_milli(0), "0.000");
    assert_eq!(render_milli(7), "0.007");
    assert_eq!(parse_milli(&render_milli(123_456)), Some(123_456));
}

#[test]
fn date_grammar_and_leap_years() {
    let d = parse_date("2020-03-15").unwrap();
    assert_eq!((d.year, d.month, d.day), (2020, 3, 15));
    assert!(parse_date("2020-02-29").is_some());
    assert!(parse_date("2021-02-29").is_none());
    assert!(parse_date("1900-02-29").is_none());
    assert!(parse_date("2000-02-29").is_some());
    assert!(parse_date("2020-13-01").is_none());
    assert!(parse_date("2020-00-10").is_none());
    assert!(parse_date("20-03-15").is_none());
    assert!(parse_date("2020/03/15").is_none());
    assert!(parse_date("").is_none());
}

#[test]
fn reply_envelope_decodes_first_candidate_content() {
    let body = "{\"choices\":[{\"message\":{\"content\":\"MinTemp: 1,2\"}}]}";
    assert_eq!(decode_reply(body), Ok("MinTemp: 1,2".to_string()));
    assert_eq!(decode_reply("{}"), Ok(String::new()));
    assert_eq!(
        decode_reply("this is not json"),
        Err(GatewayError::MalformedResponse)
    );
}

#[test]
fn credential_and_exchange_order() {
    assert_eq!(check_credential(""), Err(GatewayError::AuthenticationMissing));
    assert!(check_credential("SECRET-REDACTED").is_ok());
    let exemplars = vec![
        weather_pipeline::gateway::ChatMessage {
            role: Role::User,
            content: "example input".to_string(),
        },
        weather_pipeline::gateway::ChatMessage {
            role: Role::Assistant,
            content: "example output".to_string(),
        },
    ];
    let msgs = build_exchange("system".to_string(), exemplars, "prompt".to_string());
    assert_eq!(msgs.len(), 4);
    assert!(matches!(msgs[0].role, Role::System));
    assert_eq!(msgs[0].content, "system");
    assert!(matches!(msgs[1].role, Role::User));
    assert_eq!(msgs[1].content, "example input");
    assert!(matches!(msgs[2].role, Role::Assistant));
    assert!(matches!(msgs[3].role, Role::User));
    assert_eq!(msgs[3].content, "prompt");
}

#[test]
fn current_weather_assembly_and_rendering() {
    let w = assemble_current_weather(
        Some("Boston".to_string()),
        Some(21_500),
        Some(40),
        Some(3_000),
        Some("clear sky".to_string()),
        "2020-03-15".to_string(),
    )
    .unwrap();
    let text = render_current_weather(&w);
    assert_eq!(
        text,
        "Current weather in Boston:\nTemperature: 21.500\u{00b0}C\nHumidity: 40%\nWind speed: 3.000 m/s\nWeather description: clear sky\nDate: 2020-03-15"
    );
    let missing = assemble_current_weather(
        None,
        Some(0),
        Some(0),
        Some(0),
        None,
        String::new(),
    );
    assert_eq!(missing.err().unwrap(), "Missing city name");
    let missing_desc = assemble_current_weather(
        Some("Boston".to_string()),
        Some(0),
        Some(0),
        Some(0),
        None,
        String::new(),
    );
    assert_eq!(missing_desc.err().unwrap(), "Missing weather description");
}

#[test]
fn environmental_report_averages_city_rows() {
    let ds = Dataset {
        columns: vec![
            col("City", texts(&[Some("Oslo"), Some("Oslo"), Some("Bergen")])),
            col("PM2.5", nums(&[Some(10_000), Some(20_000), Some(90_000)])),
            col("PM10", nums(&[None, None, Some(1_000)])),
            col("Solar_Radiation", nums(&[Some(5_000), None, Some(7_000)])),
            col("CO2_Emissions", nums(&[Some(1_000), Some(2_000), Some(3_000)])),
        ],
    };
    let rep = generate_environmental_report(&ds, "Oslo".to_string());
    assert_eq!(rep.city, "Oslo");
    assert_eq!(rep.error, "");
    assert_eq!(rep.avg_pm25, Some(15_000));
    assert_eq!(rep.avg_pm10, None);
    assert_eq!(rep.avg_solar_radiation, Some(5_000));
    assert_eq!(rep.avg_co2_emissions, Some(1_500));

    let missing = generate_environmental_report(&ds, "Paris".to_string());
    assert_eq!(missing.error, "No data available for Paris.");
    assert_eq!(missing.avg_pm25, None);

    let no_col = Dataset { columns: vec![col("Town", texts(&[Some("Oslo")]))] };
    let schema = generate_environmental_report(&no_col, "Oslo".to_string());
    assert_eq!(schema.error, "Required column not found.");
}

#[test]
fn calculate_avg_handles_missing_and_text_columns() {
    let ds = Dataset {
        columns: vec![
            col("City", texts(&[Some("Oslo")])),
            col("PM2.5", nums(&[Some(4_000)])),
        ],
    };
    assert_eq!(calculate_avg(&ds, "PM2.5"), Some(4_000));
    assert_eq!(calculate_avg(&ds, "City"), None);
    assert_eq!(calculate_avg(&ds, "Absent"), None);
}
