use capture_pipeline::context::{
    build_context_lines, format_timestamp, join_lines, BearingDisplay, ContextInput, GpsDisplay,
    UtcTimestamp,
};
use capture_pipeline::request::{
    build_geographic_context, build_prompt, GEO_HEAD, GEO_TAIL, PROMPT_HEAD, PROMPT_TAIL,
};
use capture_pipeline::solar::SolarPosition;

fn empty_context() -> ContextInput {
    ContextInput {
        gps: None,
        country: None,
        city: None,
        place_name: None,
        timestamp: None,
        solar: None,
        orientation: None,
    }
}

#[test]
fn daylight_threshold_is_minus_six_degrees() {
    let below = SolarPosition { azimuth_millideg: 0, elevation_millideg: -6001 };
    let at = SolarPosition { azimuth_millideg: 0, elevation_millideg: -6000 };
    let above = SolarPosition { azimuth_millideg: 0, elevation_millideg: -5999 };
    let noon = SolarPosition { azimuth_millideg: 180000, elevation_millideg: 89000 };
    assert!(!below.is_daylight());
    assert!(!at.is_daylight());
    assert!(above.is_daylight());
    assert!(noon.is_daylight());
}

#[test]
fn sun_direction_buckets() {
    let mk = |az: i64| SolarPosition { azimuth_millideg: az, elevation_millideg: 0 };
    assert_eq!(mk(0).sun_direction(), "Norte");
    assert_eq!(mk(44999).sun_direction(), "Norte");
    assert_eq!(mk(45000).sun_direction(), "Este");
    assert_eq!(mk(134999).sun_direction(), "Este");
    assert_eq!(mk(135000).sun_direction(), "Sur");
    assert_eq!(mk(224999).sun_direction(), "Sur");
    assert_eq!(mk(225000).sun_direction(), "Oeste");
    assert_eq!(mk(314999).sun_direction(), "Oeste");
    assert_eq!(mk(315000).sun_direction(), "Norte");
}

#[test]
fn timestamp_rendering_pads_fields() {
    let t = UtcTimestamp { year: 2024, month: 3, day: 20, hour: 12, minute: 0, second: 0 };
    assert_eq!(format_timestamp(&t), "2024-03-20 12:00:00");
    let early = UtcTimestamp { year: 1, month: 1, day: 1, hour: 5, minute: 9, second: 7 };
    assert_eq!(format_timestamp(&early), "0001-01-01 05:09:07");
}

#[test]
fn context_lines_full_input() {
    let c = ContextInput {
        gps: Some(GpsDisplay {
            latitude_text: "9.7489".to_string(),
            longitude_text: "-83.7534".to_string(),
        }),
        country: Some("Costa Rica".to_string()),
        city: Some("La Fortuna".to_string()),
        place_name: Some("Volcán Arenal".to_string()),
        timestamp: Some(UtcTimestamp {
            year: 2024,
            month: 3,
            day: 20,
            hour: 18,
            minute: 30,
            second: 0,
        }),
        solar: Some(SolarPosition { azimuth_millideg: 123456, elevation_millideg: -7450 }),
        orientation: Some(BearingDisplay {
            bearing_degrees: 270,
            cardinal: Some("W".to_string()),
        }),
    };
    let lines = build_context_lines(&c);
    assert_eq!(lines.len(), 8);
    assert_eq!(lines[0], "📍 Coordenadas GPS: 9.7489, -83.7534");
    assert_eq!(lines[1], "🌍 País: Costa Rica");
    assert_eq!(lines[2], "🏙️ Ciudad: La Fortuna");
    assert_eq!(lines[3], "📌 Lugar: Volcán Arenal");
    assert_eq!(lines[4], "🕐 Hora captura (UTC): 2024-03-20 18:30:00");
    assert_eq!(lines[5], "☀️ Posición solar: Azimuth 123°, Elevación -7.5° (NOCHE)");
    assert_eq!(lines[6], "🌅 Sol hacia el: Este");
    assert_eq!(lines[7], "🧭 Dirección cámara: 270° (W)");
}

#[test]
fn context_lines_daylight_label() {
    let c = ContextInput {
        timestamp: Some(UtcTimestamp { year: 2024, month: 6, day: 1, hour: 12, minute: 0, second: 0 }),
        solar: Some(SolarPosition { azimuth_millideg: 180000, elevation_millideg: 65450 }),
        ..empty_context()
    };
    let lines = build_context_lines(&c);
    assert_eq!(lines.len(), 3);
    assert_eq!(lines[1], "☀️ Posición solar: Azimuth 180°, Elevación 65.5° (DÍA)");
    assert_eq!(lines[2], "🌅 Sol hacia el: Sur");
}

#[test]
fn empty_context_produces_no_block() {
    let lines = build_context_lines(&empty_context());
    assert_eq!(lines.len(), 0);
    assert_eq!(build_geographic_context(&lines), "");
}

#[test]
fn geographic_block_frames_joined_lines() {
    let lines = vec!["uno".to_string(), "dos".to_string()];
    assert_eq!(join_lines(&lines), "uno\ndos");
    let block = build_geographic_context(&lines);
    let expected = format!("{}uno\ndos{}", GEO_HEAD, GEO_TAIL);
    assert_eq!(block, expected);
}

#[test]
fn prompt_is_template_around_context() {
    let prompt = build_prompt(&empty_context());
    let expected = format!("{}{}", PROMPT_HEAD, PROMPT_TAIL);
    assert_eq!(prompt, expected);
    assert!(prompt.contains("REGLAS para tags"));
    assert!(prompt.contains("Responde ÚNICAMENTE con el JSON"));
}
