use wcgate::requests::{DownloadFileParams, DownloadImageParams, Image, SaveFile};
use wcgate::routes::{find_route, route_table, EndpointHandler, HttpMethod, ParamSource};

#[test]
fn the_table_covers_every_endpoint() {
    let table = route_table();
    assert_eq!(table.len(), 28);
}

#[test]
fn no_two_routes_share_method_and_path() {
    let table = route_table();
    for i in 0..table.len() {
        for j in 0..table.len() {
            if i != j {
                let clash = table[i].method == table[j].method && table[i].path == table[j].path;
                assert!(!clash, "routes {} and {} clash on {}", i, j, table[i].path);
            }
        }
    }
}

#[test]
fn lookup_finds_the_declared_route() {
    let table = route_table();
    let i = find_route(&table, HttpMethod::Get, "qrcode").unwrap();
    assert_eq!(table[i].handler, EndpointHandler::RefreshQrcode);
    assert_eq!(table[i].source, ParamSource::NoInput);

    let i = find_route(&table, HttpMethod::Post, "sql").unwrap();
    assert_eq!(table[i].handler, EndpointHandler::QuerySql);
    assert_eq!(table[i].source, ParamSource::JsonBody);

    let i = find_route(&table, HttpMethod::Get, "download-file").unwrap();
    assert_eq!(table[i].handler, EndpointHandler::DownloadFile);
    assert_eq!(table[i].source, ParamSource::QueryString);

    let i = find_route(&table, HttpMethod::Get, "tables").unwrap();
    assert_eq!(table[i].handler, EndpointHandler::GetTables);
    assert_eq!(table[i].source, ParamSource::PathSegment);
}

#[test]
fn lookup_misses_on_wrong_method_or_path() {
    let table = route_table();
    assert!(find_route(&table, HttpMethod::Post, "qrcode").is_none());
    assert!(find_route(&table, HttpMethod::Get, "no-such-endpoint").is_none());
}

#[test]
fn image_descriptors_leave_the_thumbnail_empty() {
    let msg = Image {
        id: 7,
        extra: String::from("locator-7"),
        dir: String::from("C:/out"),
        timeout: 3,
    };
    let d = msg.to_descriptor();
    assert_eq!(d.id, 7);
    assert_eq!(d.thumb, "");
    assert_eq!(d.extra, "locator-7");

    let q = DownloadImageParams {
        id: 9,
        extra: String::from("locator-9"),
        dir: String::from("C:/out"),
        timeout: 1,
    };
    let d = q.to_descriptor();
    assert_eq!(d.id, 9);
    assert_eq!(d.thumb, "");
    assert_eq!(d.extra, "locator-9");
}

#[test]
fn file_descriptors_keep_the_thumbnail() {
    let msg = SaveFile {
        id: 5,
        extra: String::from("locator-5"),
        thumb: String::from("thumb-5"),
    };
    let d = msg.to_descriptor();
    assert_eq!(d.id, 5);
    assert_eq!(d.thumb, "thumb-5");
    assert_eq!(d.extra, "locator-5");

    let q = DownloadFileParams {
        id: 6,
        extra: String::from("locator-6"),
        thumb: String::from("thumb-6"),
    };
    let d = q.to_descriptor();
    assert_eq!(d.thumb, "thumb-6");
    assert_eq!(d.extra, "locator-6");
}
