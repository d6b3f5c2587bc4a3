use vstd::prelude::*;

verus! {

use crate::aggregate::{
    agg_col_ok, aggregate_monthly, spec_first_seen, spec_key_of, spec_kept_idx, spec_map_some,
    spec_row_keys, spec_some_mask, spec_unwrap,
};
use crate::dataset::{col_filtered, spec_count_true, spec_mask, ColumnValues, Dataset};
use crate::gateway::GatewayError;
use crate::parser::{
    num_field, spec_empties12, spec_num_field, spec_text_field, spec_zeros12, text_field, zeros12,
    empties12,
};
use crate::prompt::{
    location_prompt, monthly_prompt, no_data_message, no_data_month_message, spec_location_prompt,
    spec_monthly_prompt, spec_no_data_message, spec_no_data_month_message, spec_render_table,
};
use crate::reduce::{mean_milli, mode_text, spec_mean, spec_mode};
use crate::select::{
    select_location, select_location_month, spec_loc_match, spec_location_mask,
    spec_location_month_mask, spec_month_match, spec_text_col, SelectError,
};

/// The monthly report: a narrative from the completion service plus the
/// selected readings taken straight from the dataset.
pub struct WeatherReport {
    pub report: String,
    pub min_temp: Vec<Option<i64>>,
    pub max_temp: Vec<Option<i64>>,
    pub wind_direction: String,
    pub wind_speed: Vec<Option<i64>>,
    pub rainfall: Vec<Option<i64>>,
}

/// The prediction report: every field parsed from the completion reply.
pub struct PredictionReport {
    pub min_temp: Vec<i64>,
    pub wind_direction: Vec<String>,
    pub wind_speed: Vec<i64>,
    pub rainfall: Vec<i64>,
}

/// One current-weather observation.
pub struct WeatherData {
    pub city: String,
    pub date: String,
    pub temperature: i64,
    pub humidity: u8,
    pub wind_speed: i64,
    pub weather_description: String,
}

/// The environmental report: per-pollutant averages over one location.
pub struct EnvironmentalReport {
    pub city: String,
    pub avg_pm25: Option<i64>,
    pub avg_pm10: Option<i64>,
    pub avg_solar_radiation: Option<i64>,
    pub avg_co2_emissions: Option<i64>,
    pub error: String,
}

/// The numeric cells of a named column; an absent or non-numeric column is a
/// recoverable schema mismatch and yields no cells.
pub open spec fn spec_num_col(ds: Dataset, name: Seq<char>) -> Seq<Option<i64>> {
    match ds.spec_find(name) {
        Some(j) => match ds.columns@[j].values {
            ColumnValues::Nums(v) => v@,
            ColumnValues::Texts(_) => Seq::<Option<i64>>::empty(),
        },
        None => Seq::<Option<i64>>::empty(),
    }
}

fn copy_num_cells(v: &Vec<Option<i64>>) -> (r: Vec<Option<i64>>)
    ensures
        r@ == v@,
{
    let n = v.len();
    let mut out: Vec<Option<i64>> = Vec::new();
    let mut i: usize = 0;
    while i < n
        invariant
            i <= n,
            n == v@.len(),
            out@.len() == i,
            forall|j: int| 0 <= j < i ==> out@[j] == v@[j],
        decreases n - i,
    {
        out.push(v[i]);
        i = i + 1;
    }
    proof {
        assert(out@ =~= v@);
    }
    out
}

/// Collect a named numeric column into a nullable sequence.
pub fn get_num_column(ds: &Dataset, name: &str) -> (r: Vec<Option<i64>>)
    ensures
        r@ == spec_num_col(*ds, name@),
{
    proof {
        ds.lemma_find_range(name@);
        assert(Seq::<Option<i64>>::empty() =~= Seq::<Option<i64>>::empty());
    }
    match ds.find_column(name) {
        Some(j) => match &ds.columns[j].values {
            ColumnValues::Nums(v) => copy_num_cells(v),
            ColumnValues::Texts(_) => Vec::new(),
        },
        None => Vec::new(),
    }
}

pub fn get_min_temp(ds: &Dataset) -> (r: Vec<Option<i64>>)
    ensures
        r@ == spec_num_col(*ds, "MinTemp"@),
{
    get_num_column(ds, "MinTemp")
}

pub fn get_max_temp(ds: &Dataset) -> (r: Vec<Option<i64>>)
    ensures
        r@ == spec_num_col(*ds, "MaxTemp"@),
{
    get_num_column(ds, "MaxTemp")
}

pub fn get_wind_speed(ds: &Dataset) -> (r: Vec<Option<i64>>)
    ensures
        r@ == spec_num_col(*ds, "WindGustSpeed"@),
{
    get_num_column(ds, "WindGustSpeed")
}

pub fn get_rainfall(ds: &Dataset) -> (r: Vec<Option<i64>>)
    ensures
        r@ == spec_num_col(*ds, "Rainfall"@),
{
    get_num_column(ds, "Rainfall")
}

/// The dominant value of a named text column: its mode, or the empty string
/// when the column is absent, of the wrong type, or has no values.
pub open spec fn spec_dominant_text(ds: Dataset, name: Seq<char>) -> Seq<char> {
    match ds.spec_find(name) {
        Some(j) => match ds.columns@[j].values {
            ColumnValues::Texts(v) => match spec_mode(v.deep_view()) {
                Some(m) => m,
                None => Seq::<char>::empty(),
            },
            ColumnValues::Nums(_) => Seq::<char>::empty(),
        },
        None => Seq::<char>::empty(),
    }
}

pub fn get_wind_direction(ds: &Dataset) -> (r: String)
    ensures
        r@ == spec_dominant_text(*ds, "WindGustDir"@),
{
    proof {
        ds.lemma_find_range("WindGustDir"@);
    }
    match ds.find_column("WindGustDir") {
        Some(j) => match &ds.columns[j].values {
            ColumnValues::Texts(v) => match mode_text(v) {
                Some(m) => m,
                None => String::new(),
            },
            ColumnValues::Nums(_) => String::new(),
        },
        None => String::new(),
    }
}

/// The mean of a named numeric column, nulls ignored; an absent column, a
/// text column, and a column without values all yield no average.
pub open spec fn spec_avg(ds: Dataset, name: Seq<char>) -> Option<i64> {
    match ds.spec_find(name) {
        Some(j) => match ds.columns@[j].values {
            ColumnValues::Nums(v) => spec_mean(v@),
            ColumnValues::Texts(_) => None,
        },
        None => None,
    }
}

pub fn calculate_avg(ds: &Dataset, column_name: &str) -> (r: Option<i64>)
    ensures
        r == spec_avg(*ds, column_name@),
{
    proof {
        ds.lemma_find_range(column_name@);
    }
    match ds.find_column(column_name) {
        Some(j) => match &ds.columns[j].values {
            ColumnValues::Nums(v) => mean_milli(v),
            ColumnValues::Texts(_) => None,
        },
        None => None,
    }
}

/// Two datasets whose columns carry the same names find columns at the same
/// places.
pub proof fn lemma_find_parallel(a: Dataset, b: Dataset, name: Seq<char>, i: nat)
    requires
        a.columns@.len() == b.columns@.len(),
        forall|j: int|
            0 <= j < a.columns@.len() ==> (#[trigger] b.columns@[j]).name@ == a.columns@[j].name@,
    ensures
        a.spec_find_from(name, i) == b.spec_find_from(name, i),
    decreases a.columns@.len() - i,
{
    if i >= a.columns@.len() {
    } else if a.columns@[i as int].name@ == name {
    } else {
        lemma_find_parallel(a, b, name, i + 1);
    }
}

/// The notice given for a dataset that lacks a required column.
pub open spec fn spec_schema_message() -> Seq<char> {
    "Required column not found."@
}

pub fn schema_message() -> (r: String)
    ensures
        r@ == spec_schema_message(),
{
    String::from_str("Required column not found.")
}

pub open spec fn spec_weather_defaults(r: WeatherReport) -> bool {
    &&& r.min_temp@.len() == 0
    &&& r.max_temp@.len() == 0
    &&& r.wind_direction@.len() == 0
    &&& r.wind_speed@.len() == 0
    &&& r.rainfall@.len() == 0
}

/// The default monthly report: empty readings and the given notice.
pub fn empty_weather_report(message: String) -> (r: WeatherReport)
    ensures
        spec_weather_defaults(r),
        r.report@ == message@,
{
    WeatherReport {
        report: message,
        min_temp: Vec::new(),
        max_temp: Vec::new(),
        wind_direction: String::new(),
        wind_speed: Vec::new(),
        rainfall: Vec::new(),
    }
}

/// A prepared monthly request: the selected rows and the prompt rendered from
/// them.
pub struct MonthlyRequest {
    pub selection: Dataset,
    pub prompt: String,
}

/// The first half of the monthly pipeline: select the location's rows for the
/// requested month and render the prompt. An empty selection or a missing
/// column short-circuits to the default report; the completion service must
/// not be called for it.
pub fn prepare_weather_request(ds: &Dataset, city: &str, year: i32, month: u32) -> (r: Result<
    MonthlyRequest,
    WeatherReport,
>)
    requires
        ds.well_formed(),
    ensures
        match r {
            Ok(req) => spec_text_col(*ds, "Location"@) matches Some(locs) && spec_text_col(
                *ds,
                "Date"@,
            ) matches Some(dates) && {
                let mask = spec_location_month_mask(locs, dates, city@, year, month);
                &&& req.selection.well_formed()
                &&& req.selection.columns@.len() == ds.columns@.len()
                &&& forall|j: int|
                    0 <= j < ds.columns@.len() ==> col_filtered(
                        ds.columns@[j],
                        #[trigger] req.selection.columns@[j],
                        mask,
                    )
                &&& req.selection.spec_height() == spec_count_true(mask)
                &&& req.selection.spec_height() > 0
                &&& req.prompt@ == spec_monthly_prompt(
                    city@,
                    year,
                    month,
                    spec_render_table(req.selection),
                )
            },
            Err(rep) => spec_weather_defaults(rep) && if spec_text_col(*ds, "Location"@) is None
                || spec_text_col(*ds, "Date"@) is None {
                rep.report@ == spec_schema_message()
            } else {
                rep.report@ == spec_no_data_month_message(city@, year, month) && !(exists|j: int|
                    0 <= j < spec_text_col(*ds, "Location"@)->Some_0.len() && spec_loc_match(
                        spec_text_col(*ds, "Location"@)->Some_0[j],
                        city@,
                    ) && spec_month_match(spec_text_col(*ds, "Date"@)->Some_0[j], year, month))
            },
        },
{
    match select_location_month(ds, "Location", "Date", city, year, month) {
        Ok(selection) => {
            let prompt = monthly_prompt(city, year, month, &selection);
            Ok(MonthlyRequest { selection, prompt })
        },
        Err(SelectError::ColumnNotFound) => Err(empty_weather_report(schema_message())),
        Err(SelectError::EmptySelection) => Err(
            empty_weather_report(no_data_month_message(city, year, month)),
        ),
    }
}

/// The second half of the monthly pipeline: combine the completion outcome
/// with readings taken straight from the selected rows. Assembly never fails;
/// a failed completion only changes the narrative text.
pub fn assemble_weather_report(
    selection: &Dataset,
    completion: Result<String, GatewayError>,
) -> (r: WeatherReport)
    ensures
        r.min_temp@ == spec_num_col(*selection, "MinTemp"@),
        r.max_temp@ == spec_num_col(*selection, "MaxTemp"@),
        r.wind_speed@ == spec_num_col(*selection, "WindGustSpeed"@),
        r.rainfall@ == spec_num_col(*selection, "Rainfall"@),
        r.wind_direction@ == spec_dominant_text(*selection, "WindGustDir"@),
        match completion {
            Ok(t) => r.report@ == t@,
            Err(e) => r.report@ == "Error in API call: "@ + e.spec_message(),
        },
{
    let report = match completion {
        Ok(t) => t,
        Err(e) => {
            let mut s = String::from_str("Error in API call: ");
            s.append(e.message().as_str());
            proof {
                assert(s@ =~= "Error in API call: "@ + e.spec_message());
            }
            s
        },
    };
    WeatherReport {
        report,
        min_temp: get_min_temp(selection),
        max_temp: get_max_temp(selection),
        wind_direction: get_wind_direction(selection),
        wind_speed: get_wind_speed(selection),
        rainfall: get_rainfall(selection),
    }
}

pub open spec fn spec_prediction_defaults(r: PredictionReport) -> bool {
    &&& r.min_temp@ == spec_zeros12()
    &&& r.wind_direction.deep_view() == spec_empties12()
    &&& r.wind_speed@ == spec_zeros12()
    &&& r.rainfall@ == spec_zeros12()
}

/// The all-default prediction report: twelve zero entries and twelve empty
/// strings, one per month.
pub fn empty_prediction_report() -> (r: PredictionReport)
    ensures
        spec_prediction_defaults(r),
{
    PredictionReport {
        min_temp: zeros12(),
        wind_direction: empties12(),
        wind_speed: zeros12(),
        rainfall: zeros12(),
    }
}

/// The year-month buckets the prediction pipeline would aggregate: first the
/// location's rows are kept, then rows without a valid date drop, and the
/// distinct keys stand in first-seen order.
pub open spec fn spec_prediction_buckets(
    locs: Seq<Option<Seq<char>>>,
    dates: Seq<Option<Seq<char>>>,
    city: Seq<char>,
) -> Seq<Seq<char>> {
    let mask = spec_location_mask(locs, city);
    let keys0 = spec_row_keys(spec_mask(dates, mask));
    spec_first_seen(spec_unwrap(spec_mask(keys0, spec_some_mask(keys0))))
}

/// A prepared prediction request: the location's rows, their monthly
/// aggregation, and the prompt rendered from the aggregation.
pub struct PredictionRequest {
    pub selection: Dataset,
    pub aggregated: Dataset,
    pub prompt: String,
}

/// The first half of the prediction pipeline: select the location's rows,
/// aggregate them by month, and render the prompt. A missing column, an
/// absent location, or an aggregation with no surviving rows short-circuits
/// to the default report.
pub fn prepare_prediction_request(ds: &Dataset, city: &str) -> (r: Result<
    PredictionRequest,
    PredictionReport,
>)
    requires
        ds.well_formed(),
    ensures
        match r {
            Ok(req) => spec_text_col(*ds, "Location"@) matches Some(locs) && {
                let mask = spec_location_mask(locs, city@);
                &&& req.selection.well_formed()
                &&& req.selection.columns@.len() == ds.columns@.len()
                &&& forall|j: int|
                    0 <= j < ds.columns@.len() ==> col_filtered(
                        ds.columns@[j],
                        #[trigger] req.selection.columns@[j],
                        mask,
                    )
                &&& req.selection.spec_height() == spec_count_true(mask)
                &&& req.selection.spec_height() > 0
                &&& spec_text_col(req.selection, "Date"@) matches Some(dates) && {
                    let keys0 = spec_row_keys(dates);
                    let smask = spec_some_mask(keys0);
                    let fkeys = spec_unwrap(spec_mask(keys0, smask));
                    let uniq = spec_first_seen(fkeys);
                    let kept = spec_kept_idx(req.selection.columns@, "Location"@, "Date"@);
                    &&& req.aggregated.well_formed()
                    &&& req.aggregated.spec_height() == uniq.len()
                    &&& uniq.len() > 0
                    &&& req.aggregated.columns@.len() == 1 + kept.len()
                    &&& req.aggregated.columns@[0].name@ == "Year-Month"@
                    &&& (req.aggregated.columns@[0].values matches ColumnValues::Texts(v)
                        && v.deep_view() == spec_map_some(uniq))
                    &&& forall|k: int|
                        0 <= k < kept.len() ==> agg_col_ok(
                            req.selection.columns@[kept[k]],
                            #[trigger] req.aggregated.columns@[1 + k],
                            smask,
                            fkeys,
                            uniq,
                        )
                }
                &&& req.prompt@ == spec_location_prompt(city@, spec_render_table(req.aggregated))
            },
            Err(rep) => spec_prediction_defaults(rep) && match spec_text_col(*ds, "Location"@) {
                None => true,
                Some(locs) => {
                    ||| !(exists|j: int|
                        0 <= j < locs.len() && spec_loc_match(locs[j], city@))
                    ||| spec_text_col(*ds, "Date"@) is None
                    ||| (spec_text_col(*ds, "Date"@) matches Some(dates)
                        && spec_prediction_buckets(locs, dates, city@).len() == 0)
                },
            },
        },
{
    let selection = match select_location(ds, "Location", city) {
        Ok(s) => s,
        Err(_) => {
            return Err(empty_prediction_report());
        },
    };
    proof {
        lemma_selection_date_col(*ds, selection, city@);
    }
    let aggregated = match aggregate_monthly(&selection, "Location", "Date") {
        Ok(a) => a,
        Err(_) => {
            return Err(empty_prediction_report());
        },
    };
    if aggregated.height() == 0 {
        return Err(empty_prediction_report());
    }
    let prompt = location_prompt(city, &aggregated);
    Ok(PredictionRequest { selection, aggregated, prompt })
}

/// After selecting a location's rows, the selection's date column is the
/// masked copy of the source's, and it is missing exactly when the source's
/// is.
proof fn lemma_selection_date_col(ds: Dataset, sel: Dataset, city: Seq<char>)
    requires
        spec_text_col(ds, "Location"@) matches Some(locs) && {
            let mask = spec_location_mask(locs, city);
            &&& sel.columns@.len() == ds.columns@.len()
            &&& forall|j: int|
                0 <= j < ds.columns@.len() ==> col_filtered(
                    ds.columns@[j],
                    #[trigger] sel.columns@[j],
                    mask,
                )
        },
    ensures
        spec_text_col(ds, "Location"@) matches Some(locs) && {
            let mask = spec_location_mask(locs, city);
            match spec_text_col(ds, "Date"@) {
                None => spec_text_col(sel, "Date"@) is None,
                Some(dates) => spec_text_col(sel, "Date"@) == Some(spec_mask(dates, mask)),
            }
        },
{
    let locs = spec_text_col(ds, "Location"@)->Some_0;
    let mask = spec_location_mask(locs, city);
    assert forall|j: int|
        0 <= j < ds.columns@.len() implies (#[trigger] sel.columns@[j]).name@
        == ds.columns@[j].name@ by {
        assert(col_filtered(ds.columns@[j], sel.columns@[j], mask));
    }
    lemma_find_parallel(ds, sel, "Date"@, 0);
    ds.lemma_find_range("Date"@);
    match ds.spec_find("Date"@) {
        Some(j) => {
            assert(col_filtered(ds.columns@[j], sel.columns@[j], mask));
        },
        None => {},
    }
}

/// The second half of the prediction pipeline: parse the completion reply
/// into the report's fields. A failed completion reads as the empty reply,
/// and the empty reply yields the all-default report.
pub fn assemble_prediction_report(completion: Result<String, GatewayError>) -> (r: PredictionReport)
    ensures
        match completion {
            Ok(t) => if t@.len() == 0 {
                spec_prediction_defaults(r)
            } else {
                &&& r.min_temp@ == spec_num_field(t@, "MinTemp"@)
                &&& r.wind_direction.deep_view() == spec_text_field(t@, "WindDirection"@)
                &&& r.wind_speed@ == spec_num_field(t@, "WindSpeed"@)
                &&& r.rainfall@ == spec_num_field(t@, "Rainfall"@)
            },
            Err(_) => spec_prediction_defaults(r),
        },
{
    let text = match completion {
        Ok(t) => t,
        Err(_) => String::new(),
    };
    if text.as_str().is_empty() {
        empty_prediction_report()
    } else {
        PredictionReport {
            min_temp: num_field(text.as_str(), "MinTemp"),
            wind_direction: text_field(text.as_str(), "WindDirection"),
            wind_speed: num_field(text.as_str(), "WindSpeed"),
            rainfall: num_field(text.as_str(), "Rainfall"),
        }
    }
}

/// Build one current-weather observation from the fields the service reply
/// offered; the first missing field names the error, in a fixed order.
pub fn assemble_current_weather(
    city: Option<String>,
    temperature: Option<i64>,
    humidity: Option<u8>,
    wind_speed: Option<i64>,
    description: Option<String>,
    date: String,
) -> (r: Result<WeatherData, String>)
    ensures
        match r {
            Ok(w) => {
                &&& city matches Some(c) && w.city == c
                &&& temperature == Some(w.temperature)
                &&& humidity == Some(w.humidity)
                &&& wind_speed == Some(w.wind_speed)
                &&& description matches Some(d) && w.weather_description == d
                &&& w.date == date
            },
            Err(m) => if city is None {
                m@ == "Missing city name"@
            } else if temperature is None {
                m@ == "Missing temperature"@
            } else if humidity is None {
                m@ == "Missing humidity"@
            } else if wind_speed is None {
                m@ == "Missing wind speed"@
            } else {
                description is None && m@ == "Missing weather description"@
            },
        },
{
    let c = match city {
        Some(c) => c,
        None => {
            return Err(String::from_str("Missing city name"));
        },
    };
    let t = match temperature {
        Some(t) => t,
        None => {
            return Err(String::from_str("Missing temperature"));
        },
    };
    let h = match humidity {
        Some(h) => h,
        None => {
            return Err(String::from_str("Missing humidity"));
        },
    };
    let w = match wind_speed {
        Some(w) => w,
        None => {
            return Err(String::from_str("Missing wind speed"));
        },
    };
    let d = match description {
        Some(d) => d,
        None => {
            return Err(String::from_str("Missing weather description"));
        },
    };
    Ok(
        WeatherData {
            city: c,
            date,
            temperature: t,
            humidity: h,
            wind_speed: w,
            weather_description: d,
        },
    )
}

/// The rendering of one current-weather observation.
pub open spec fn spec_current_weather_text(w: WeatherData) -> Seq<char> {
    "Current weather in "@ + w.city@ + ":\nTemperature: "@ + crate::num::spec_render_milli(
        w.temperature as int,
    ) + "\u{00b0}C\nHumidity: "@ + crate::num::spec_digits_seq(w.humidity as nat)
        + "%\nWind speed: "@ + crate::num::spec_render_milli(w.wind_speed as int)
        + " m/s\nWeather description: "@ + w.weather_description@ + "\nDate: "@ + w.date@
}

pub fn render_current_weather(w: &WeatherData) -> (r: String)
    ensures
        r@ == spec_current_weather_text(*w),
{
    let mut s = String::from_str("Current weather in ");
    s.append(w.city.as_str());
    s.append(":\nTemperature: ");
    crate::num::render_milli_onto(&mut s, w.temperature);
    s.append("\u{00b0}C\nHumidity: ");
    crate::num::push_u64(&mut s, w.humidity as u64);
    s.append("%\nWind speed: ");
    crate::num::render_milli_onto(&mut s, w.wind_speed);
    s.append(" m/s\nWeather description: ");
    s.append(w.weather_description.as_str());
    s.append("\nDate: ");
    s.append(w.date.as_str());
    proof {
        assert(s@ =~= spec_current_weather_text(*w));
    }
    s
}

/// The notice given when the observation service could not be reached.
pub open spec fn spec_service_failure_text(detail: Seq<char>) -> Seq<char> {
    "Failed to connect to OpenWeatherMap API: "@ + detail
}

pub fn service_failure_text(detail: &str) -> (r: String)
    ensures
        r@ == spec_service_failure_text(detail@),
{
    let mut s = String::from_str("Failed to connect to OpenWeatherMap API: ");
    s.append(detail);
    s
}

/// The environmental report of one location: the location's rows are
/// selected, then each pollutant column is averaged with nulls ignored.
/// Assembly never fails: a missing column or an absent location only fills
/// the error text and leaves the averages empty.
pub fn generate_environmental_report(ds: &Dataset, city: String) -> (r: EnvironmentalReport)
    requires
        ds.well_formed(),
    ensures
        r.city@ == city@,
        match spec_text_col(*ds, "City"@) {
            None => {
                &&& r.error@ == spec_schema_message()
                &&& r.avg_pm25 is None
                &&& r.avg_pm10 is None
                &&& r.avg_solar_radiation is None
                &&& r.avg_co2_emissions is None
            },
            Some(cells) => {
                let mask = spec_location_mask(cells, city@);
                if !(exists|j: int| 0 <= j < cells.len() && spec_loc_match(cells[j], city@)) {
                    &&& r.error@ == spec_no_data_message(city@)
                    &&& r.avg_pm25 is None
                    &&& r.avg_pm10 is None
                    &&& r.avg_solar_radiation is None
                    &&& r.avg_co2_emissions is None
                } else {
                    &&& r.error@.len() == 0
                    &&& r.avg_pm25 == spec_masked_avg(*ds, "PM2.5"@, mask)
                    &&& r.avg_pm10 == spec_masked_avg(*ds, "PM10"@, mask)
                    &&& r.avg_solar_radiation == spec_masked_avg(*ds, "Solar_Radiation"@, mask)
                    &&& r.avg_co2_emissions == spec_masked_avg(*ds, "CO2_Emissions"@, mask)
                }
            },
        },
{
    let filtered = match select_location(ds, "City", city.as_str()) {
        Ok(f) => f,
        Err(SelectError::ColumnNotFound) => {
            return EnvironmentalReport {
                city,
                avg_pm25: None,
                avg_pm10: None,
                avg_solar_radiation: None,
                avg_co2_emissions: None,
                error: schema_message(),
            };
        },
        Err(SelectError::EmptySelection) => {
            let msg = no_data_message(city.as_str());
            return EnvironmentalReport {
                city,
                avg_pm25: None,
                avg_pm10: None,
                avg_solar_radiation: None,
                avg_co2_emissions: None,
                error: msg,
            };
        },
    };
    proof {
        let cells = spec_text_col(*ds, "City"@)->Some_0;
        let mask = spec_location_mask(cells, city@);
        lemma_masked_avg(*ds, filtered, "PM2.5"@, mask);
        lemma_masked_avg(*ds, filtered, "PM10"@, mask);
        lemma_masked_avg(*ds, filtered, "Solar_Radiation"@, mask);
        lemma_masked_avg(*ds, filtered, "CO2_Emissions"@, mask);
        crate::dataset::lemma_count_true_exists(mask);
    }
    EnvironmentalReport {
        city,
        avg_pm25: calculate_avg(&filtered, "PM2.5"),
        avg_pm10: calculate_avg(&filtered, "PM10"),
        avg_solar_radiation: calculate_avg(&filtered, "Solar_Radiation"),
        avg_co2_emissions: calculate_avg(&filtered, "CO2_Emissions"),
        error: String::new(),
    }
}

/// The mean a named numeric column would have after keeping only the rows the
/// mask marks.
pub open spec fn spec_masked_avg(ds: Dataset, name: Seq<char>, mask: Seq<bool>) -> Option<i64> {
    match ds.spec_find(name) {
        Some(j) => match ds.columns@[j].values {
            ColumnValues::Nums(v) => spec_mean(spec_mask(v@, mask)),
            ColumnValues::Texts(_) => None,
        },
        None => None,
    }
}

/// The average over a filtered dataset equals the masked average over its
/// source.
proof fn lemma_masked_avg(ds: Dataset, f: Dataset, name: Seq<char>, mask: Seq<bool>)
    requires
        f.columns@.len() == ds.columns@.len(),
        forall|j: int|
            0 <= j < ds.columns@.len() ==> col_filtered(
                ds.columns@[j],
                #[trigger] f.columns@[j],
                mask,
            ),
    ensures
        spec_avg(f, name) == spec_masked_avg(ds, name, mask),
{
    assert forall|j: int|
        0 <= j < ds.columns@.len() implies (#[trigger] f.columns@[j]).name@
        == ds.columns@[j].name@ by {
        assert(col_filtered(ds.columns@[j], f.columns@[j], mask));
    }
    lemma_find_parallel(ds, f, name, 0);
    ds.lemma_find_range(name);
    match ds.spec_find(name) {
        Some(j) => {
            assert(col_filtered(ds.columns@[j], f.columns@[j], mask));
        },
        None => {},
    }
}

} // verus!
