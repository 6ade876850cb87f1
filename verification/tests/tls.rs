use nitox::{NatsClientTlsConfig, NatsError};

/// A self-signed certificate for `CN=nitox test`, in DER.
const CERTIFICATE: [u8; 389] = [
    0x30, 0x82, 0x01, 0x81, 0x30, 0x82, 0x01, 0x27, 0xa0, 0x03, 0x02, 0x01, 0x02, 0x02, 0x14, 0x7d,
    0x84, 0xa6, 0x1c, 0xbd, 0xcd, 0xb9, 0x81, 0xe2, 0x71, 0x89, 0x9f, 0x46, 0x0d, 0x6b, 0x20, 0x65,
    0xa5, 0x6a, 0x43, 0x30, 0x0a, 0x06, 0x08, 0x2a, 0x86, 0x48, 0xce, 0x3d, 0x04, 0x03, 0x02, 0x30,
    0x15, 0x31, 0x13, 0x30, 0x11, 0x06, 0x03, 0x55, 0x04, 0x03, 0x0c, 0x0a, 0x6e, 0x69, 0x74, 0x6f,
    0x78, 0x20, 0x74, 0x65, 0x73, 0x74, 0x30, 0x20, 0x17, 0x0d, 0x32, 0x36, 0x31, 0x30, 0x32, 0x38,
    0x32, 0x31, 0x32, 0x34, 0x31, 0x32, 0x5a, 0x18, 0x0f, 0x32, 0x31, 0x32, 0x36, 0x31, 0x30, 0x30,
    0x34, 0x32, 0x31, 0x32, 0x34, 0x31, 0x32, 0x5a, 0x30, 0x15, 0x31, 0x13, 0x30, 0x11, 0x06, 0x03,
    0x55, 0x04, 0x03, 0x0c, 0x0a, 0x6e, 0x69, 0x74, 0x6f, 0x78, 0x20, 0x74, 0x65, 0x73, 0x74, 0x30,
    0x59, 0x30, 0x13, 0x06, 0x07, 0x2a, 0x86, 0x48, 0xce, 0x3d, 0x02, 0x01, 0x06, 0x08, 0x2a, 0x86,
    0x48, 0xce, 0x3d, 0x03, 0x01, 0x07, 0x03, 0x42, 0x00, 0x04, 0xa9, 0x6c, 0x03, 0xaf, 0x92, 0x71,
    0x80, 0x81, 0xca, 0x88, 0x8a, 0xa9, 0xf0, 0x40, 0xf1, 0xa6, 0x14, 0x46, 0xc0, 0x56, 0x66, 0xb0,
    0x9e, 0xb2, 0x59, 0x04, 0xa2, 0x2f, 0xcc, 0x71, 0xef, 0x57, 0x77, 0x28, 0xf9, 0x95, 0x80, 0x98,
    0x01, 0xb5, 0xc5, 0xd1, 0xe7, 0xd0, 0x8a, 0xa1, 0xc3, 0x9b, 0xbc, 0xad, 0x0a, 0xf6, 0x66, 0x90,
    0x74, 0xf6, 0xc5, 0x20, 0xd5, 0xc0, 0x14, 0x0f, 0x8e, 0x1f, 0xa3, 0x53, 0x30, 0x51, 0x30, 0x1d,
    0x06, 0x03, 0x55, 0x1d, 0x0e, 0x04, 0x16, 0x04, 0x14, 0xde, 0x9c, 0x95, 0x20, 0x55, 0x9f, 0xaa,
    0xad, 0xba, 0x0b, 0x3c, 0xd0, 0xf5, 0xe9, 0x13, 0x52, 0x8f, 0xfa, 0x46, 0xb8, 0x30, 0x1f, 0x06,
    0x03, 0x55, 0x1d, 0x23, 0x04, 0x18, 0x30, 0x16, 0x80, 0x14, 0xde, 0x9c, 0x95, 0x20, 0x55, 0x9f,
    0xaa, 0xad, 0xba, 0x0b, 0x3c, 0xd0, 0xf5, 0xe9, 0x13, 0x52, 0x8f, 0xfa, 0x46, 0xb8, 0x30, 0x0f,
    0x06, 0x03, 0x55, 0x1d, 0x13, 0x01, 0x01, 0xff, 0x04, 0x05, 0x30, 0x03, 0x01, 0x01, 0xff, 0x30,
    0x0a, 0x06, 0x08, 0x2a, 0x86, 0x48, 0xce, 0x3d, 0x04, 0x03, 0x02, 0x03, 0x48, 0x00, 0x30, 0x45,
    0x02, 0x21, 0x00, 0xe1, 0x13, 0xf5, 0xf5, 0x99, 0xa1, 0x03, 0x30, 0xa7, 0x30, 0x11, 0xf1, 0xb9,
    0xe9, 0x19, 0xda, 0x51, 0xab, 0xd4, 0x7a, 0x47, 0xdc, 0x1f, 0xd2, 0xca, 0x7a, 0xc2, 0x30, 0x9f,
    0x83, 0x9a, 0xb2, 0x02, 0x20, 0x47, 0x06, 0x0f, 0x9b, 0x2a, 0x1f, 0xc2, 0xcb, 0x9f, 0x8d, 0x60,
    0xe8, 0x37, 0x29, 0x6a, 0x3a, 0xba, 0x19, 0xa2, 0xeb, 0x83, 0xe4, 0xd1, 0x31, 0xcc, 0x7d, 0x25,
    0x73, 0xf5, 0x82, 0x35, 0xe7,
];

/// A PKCS #12 archive with that certificate and its key, under the password
/// `secret`.
const ARCHIVE: [u8; 1040] = [
    0x30, 0x82, 0x04, 0x0c, 0x02, 0x01, 0x03, 0x30, 0x82, 0x03, 0xc2, 0x06, 0x09, 0x2a, 0x86, 0x48,
    0x86, 0xf7, 0x0d, 0x01, 0x07, 0x01, 0xa0, 0x82, 0x03, 0xb3, 0x04, 0x82, 0x03, 0xaf, 0x30, 0x82,
    0x03, 0xab, 0x30, 0x82, 0x02, 0x62, 0x06, 0x09, 0x2a, 0x86, 0x48, 0x86, 0xf7, 0x0d, 0x01, 0x07,
    0x06, 0xa0, 0x82, 0x02, 0x53, 0x30, 0x82, 0x02, 0x4f, 0x02, 0x01, 0x00, 0x30, 0x82, 0x02, 0x48,
    0x06, 0x09, 0x2a, 0x86, 0x48, 0x86, 0xf7, 0x0d, 0x01, 0x07, 0x01, 0x30, 0x57, 0x06, 0x09, 0x2a,
    0x86, 0x48, 0x86, 0xf7, 0x0d, 0x01, 0x05, 0x0d, 0x30, 0x4a, 0x30, 0x29, 0x06, 0x09, 0x2a, 0x86,
    0x48, 0x86, 0xf7, 0x0d, 0x01, 0x05, 0x0c, 0x30, 0x1c, 0x04, 0x08, 0x29, 0x86, 0xee, 0xc9, 0x4d,
    0xf0, 0xe7, 0x8e, 0x02, 0x02, 0x08, 0x00, 0x30, 0x0c, 0x06, 0x08, 0x2a, 0x86, 0x48, 0x86, 0xf7,
    0x0d, 0x02, 0x09, 0x05, 0x00, 0x30, 0x1d, 0x06, 0x09, 0x60, 0x86, 0x48, 0x01, 0x65, 0x03, 0x04,
    0x01, 0x2a, 0x04, 0x10, 0x33, 0x45, 0x55, 0xff, 0x30, 0x4a, 0x0e, 0xa0, 0x84, 0x0c, 0x1d, 0x57,
    0xd4, 0xb5, 0xce, 0xdf, 0x80, 0x82, 0x01, 0xe0, 0xaf, 0xf2, 0x83, 0x3b, 0xf5, 0xf0, 0xac, 0x18,
    0x58, 0x7b, 0x0d, 0x85, 0x91, 0x57, 0xe7, 0x0a, 0x70, 0x34, 0xfd, 0x02, 0x94, 0x64, 0xf4, 0x8f,
    0x2d, 0x56, 0xbd, 0x02, 0xf4, 0xa6, 0x2f, 0xb2, 0x6e, 0x0a, 0x9d, 0xd8, 0xaa, 0xd7, 0xad, 0xce,
    0xfc, 0x37, 0x9f, 0x14, 0xdd, 0x1a, 0x57, 0xf0, 0x42, 0x6d, 0xe6, 0xc3, 0x50, 0xed, 0xeb, 0x75,
    0x10, 0x95, 0xc8, 0xe1, 0x97, 0x09, 0x43, 0xc3, 0xe7, 0x02, 0x1b, 0xab, 0x60, 0xe5, 0x68, 0x4f,
    0x62, 0xcb, 0xd0, 0x64, 0xb7, 0x35, 0x39, 0x6a, 0x8b, 0x0c, 0x31, 0xad, 0x22, 0x51, 0x07, 0x39,
    0xd3, 0x13, 0x77, 0x42, 0xdc, 0x42, 0x54, 0x68, 0xa8, 0xcc, 0xc3, 0x4d, 0x9b, 0xdd, 0xcd, 0x0f,
    0xd4, 0xfa, 0xf8, 0x84, 0xbb, 0x8d, 0xf2, 0x5c, 0x9b, 0xe3, 0xf3, 0x61, 0xd1, 0x51, 0x1c, 0xc6,
    0x6d, 0x07, 0x15, 0x94, 0xc3, 0x0e, 0xdf, 0x45, 0x31, 0xa6, 0x6c, 0x96, 0x34, 0x65, 0x4a, 0x88,
    0x6a, 0x03, 0x20, 0x7a, 0x34, 0x6d, 0x50, 0x70, 0x45, 0x61, 0x93, 0x39, 0x1b, 0x85, 0x2a, 0x15,
    0x44, 0x23, 0x88, 0x86, 0x76, 0x7a, 0x23, 0xe7, 0xe4, 0x1e, 0xb9, 0x81, 0x6e, 0x82, 0x54, 0xe6,
    0x24, 0x68, 0x47, 0xab, 0x7d, 0xa1, 0x62, 0xe0, 0xa6, 0x9d, 0x21, 0x27, 0x9d, 0x54, 0xcc, 0x59,
    0x00, 0x55, 0xfd, 0x4f, 0x31, 0xac, 0x02, 0x95, 0xd4, 0x70, 0x84, 0x36, 0xc8, 0x8c, 0x2c, 0x23,
    0xbc, 0x3a, 0x4f, 0xb4, 0x6d, 0xe0, 0xf2, 0x3a, 0xcc, 0xc4, 0x37, 0x9a, 0xbf, 0xa0, 0x9c, 0x63,
    0x26, 0x7d, 0x56, 0x68, 0x60, 0xfa, 0xb5, 0xde, 0xe5, 0xfc, 0x1a, 0x08, 0x1d, 0x8d, 0x71, 0x32,
    0x1c, 0xa1, 0x4a, 0xe9, 0x62, 0x7d, 0x60, 0xfd, 0x87, 0x14, 0x60, 0x02, 0x61, 0x66, 0x92, 0x2c,
    0xdb, 0x7d, 0x37, 0x61, 0xb7, 0xfe, 0x97, 0x36, 0x7f, 0x8f, 0x69, 0xd3, 0xd4, 0x89, 0xc1, 0xfb,
    0xfb, 0xfb, 0x25, 0x62, 0xb1, 0x85, 0x5b, 0x6c, 0xd1, 0x12, 0x78, 0xf0, 0xe6, 0xb9, 0x36, 0x5f,
    0x05, 0x96, 0xd8, 0x66, 0xdf, 0xda, 0x33, 0x1e, 0x9c, 0x0d, 0xf8, 0xc2, 0x56, 0x45, 0xe8, 0x6d,
    0x51, 0x49, 0x02, 0x0d, 0xb4, 0xb2, 0x50, 0x6c, 0xeb, 0x0d, 0xff, 0x5a, 0xcf, 0x7d, 0x0d, 0x55,
    0x09, 0x10, 0x48, 0x47, 0xa2, 0x79, 0xdd, 0x65, 0x5b, 0x84, 0x65, 0x52, 0xd9, 0xe4, 0x96, 0xfc,
    0xe8, 0xdc, 0x07, 0x02, 0xaa, 0xc6, 0x0e, 0x3b, 0x76, 0x96, 0xa1, 0xe2, 0xae, 0x02, 0x78, 0x50,
    0x77, 0xe1, 0x9f, 0x60, 0x47, 0x2b, 0x01, 0xe9, 0x43, 0xc8, 0xe5, 0xd7, 0x4f, 0x28, 0xbb, 0x36,
    0xc4, 0x7c, 0x81, 0xc9, 0xac, 0x12, 0xf6, 0x05, 0x9a, 0x6d, 0xaf, 0xca, 0xcd, 0x66, 0xb6, 0x17,
    0x74, 0x8f, 0x93, 0x2f, 0xfb, 0xbe, 0xd4, 0xa1, 0x77, 0x27, 0x85, 0xc0, 0x62, 0xc8, 0x9c, 0x7f,
    0xb7, 0x35, 0x5c, 0x6d, 0xe1, 0x4c, 0x00, 0x38, 0xda, 0x9c, 0xc3, 0x1a, 0xa4, 0x8a, 0xcc, 0x9f,
    0x84, 0xe6, 0xec, 0x69, 0xe9, 0xd7, 0x8d, 0xf6, 0xc5, 0x90, 0xe6, 0x0b, 0xfb, 0x2c, 0xc8, 0x18,
    0xc8, 0x56, 0xd7, 0xdb, 0x9a, 0x80, 0x5a, 0xc7, 0xe9, 0xd2, 0xe9, 0xc6, 0x2e, 0x45, 0xa9, 0x0e,
    0x8b, 0x33, 0x4b, 0xa6, 0x56, 0xb1, 0xaf, 0x7d, 0xe8, 0x29, 0xbd, 0x59, 0x31, 0x9e, 0x7c, 0xee,
    0x9f, 0x69, 0x5f, 0x69, 0xce, 0x82, 0xa7, 0xde, 0x44, 0xf7, 0xd1, 0x5c, 0xd2, 0x92, 0xe1, 0xe4,
    0xb8, 0xf9, 0xc3, 0x1e, 0x5b, 0x2b, 0xa5, 0x02, 0x30, 0x82, 0x01, 0x41, 0x06, 0x09, 0x2a, 0x86,
    0x48, 0x86, 0xf7, 0x0d, 0x01, 0x07, 0x01, 0xa0, 0x82, 0x01, 0x32, 0x04, 0x82, 0x01, 0x2e, 0x30,
    0x82, 0x01, 0x2a, 0x30, 0x82, 0x01, 0x26, 0x06, 0x0b, 0x2a, 0x86, 0x48, 0x86, 0xf7, 0x0d, 0x01,
    0x0c, 0x0a, 0x01, 0x02, 0xa0, 0x81, 0xef, 0x30, 0x81, 0xec, 0x30, 0x57, 0x06, 0x09, 0x2a, 0x86,
    0x48, 0x86, 0xf7, 0x0d, 0x01, 0x05, 0x0d, 0x30, 0x4a, 0x30, 0x29, 0x06, 0x09, 0x2a, 0x86, 0x48,
    0x86, 0xf7, 0x0d, 0x01, 0x05, 0x0c, 0x30, 0x1c, 0x04, 0x08, 0xec, 0xea, 0x7d, 0xdb, 0x60, 0xaa,
    0xce, 0x72, 0x02, 0x02, 0x08, 0x00, 0x30, 0x0c, 0x06, 0x08, 0x2a, 0x86, 0x48, 0x86, 0xf7, 0x0d,
    0x02, 0x09, 0x05, 0x00, 0x30, 0x1d, 0x06, 0x09, 0x60, 0x86, 0x48, 0x01, 0x65, 0x03, 0x04, 0x01,
    0x2a, 0x04, 0x10, 0xfd, 0x4e, 0x7c, 0x1a, 0x14, 0x31, 0x54, 0x29, 0x38, 0x0d, 0x76, 0xdc, 0x96,
    0x8b, 0x2e, 0x83, 0x04, 0x81, 0x90, 0x43, 0x41, 0x69, 0xa0, 0x6d, 0x4d, 0x2c, 0xca, 0xca, 0xb8,
    0x22, 0x63, 0x0f, 0xa2, 0xc4, 0xe1, 0x70, 0xd8, 0x19, 0xeb, 0x77, 0xdf, 0xb7, 0x65, 0x69, 0x76,
    0xbe, 0xa2, 0xe3, 0x99, 0x01, 0x3a, 0x42, 0x63, 0x6a, 0xf6, 0xfc, 0x88, 0x2f, 0x13, 0xbc, 0x9a,
    0x63, 0xef, 0xd0, 0x7b, 0x04, 0x03, 0x30, 0x75, 0xc9, 0x1a, 0x90, 0x6f, 0x0f, 0xcd, 0xe3, 0xe1,
    0xd6, 0x99, 0x4a, 0x10, 0x60, 0x12, 0x16, 0x79, 0x4a, 0x73, 0xfc, 0xf0, 0x2d, 0x08, 0xb5, 0xe1,
    0x1d, 0x39, 0xde, 0xd1, 0x5f, 0xfb, 0xa3, 0x41, 0xf8, 0xba, 0xa6, 0xea, 0x67, 0x43, 0x6d, 0xf3,
    0x05, 0x6c, 0x1d, 0x6f, 0xb8, 0xbb, 0x43, 0x41, 0x3c, 0x03, 0x40, 0xa5, 0xac, 0x62, 0x18, 0xa4,
    0x53, 0x74, 0x06, 0x28, 0xa6, 0xb4, 0x90, 0xf4, 0xf0, 0xaf, 0xc2, 0x58, 0x43, 0x20, 0xa7, 0xa6,
    0x57, 0x79, 0xfd, 0xf8, 0x1f, 0x5a, 0x53, 0x82, 0x4a, 0x6d, 0xb7, 0x3b, 0x3d, 0x29, 0x43, 0x85,
    0x7a, 0x12, 0x81, 0xb1, 0xfa, 0x68, 0x31, 0x25, 0x30, 0x23, 0x06, 0x09, 0x2a, 0x86, 0x48, 0x86,
    0xf7, 0x0d, 0x01, 0x09, 0x15, 0x31, 0x16, 0x04, 0x14, 0xbb, 0x91, 0x8d, 0xa6, 0x36, 0x66, 0x91,
    0x75, 0x5d, 0xa1, 0x4a, 0xd5, 0x7a, 0x92, 0xa7, 0x2a, 0xeb, 0xd5, 0x9f, 0xe5, 0x30, 0x41, 0x30,
    0x31, 0x30, 0x0d, 0x06, 0x09, 0x60, 0x86, 0x48, 0x01, 0x65, 0x03, 0x04, 0x02, 0x01, 0x05, 0x00,
    0x04, 0x20, 0x36, 0xb7, 0x1a, 0x58, 0xfe, 0x2c, 0x1e, 0xaf, 0xa5, 0xdd, 0xa3, 0xd5, 0xc7, 0xe2,
    0x6c, 0xe9, 0x1f, 0x69, 0x87, 0x98, 0x5a, 0x52, 0xcd, 0x2a, 0xf7, 0x94, 0x49, 0xc7, 0x4f, 0x21,
    0x68, 0xf9, 0x04, 0x08, 0xe9, 0x3a, 0xcb, 0x8f, 0xfd, 0xdf, 0x3b, 0x2e, 0x02, 0x02, 0x08, 0x00,
];

#[test]
fn a_certificate_that_the_tls_library_reads_is_kept() {
    let config = match NatsClientTlsConfig::new().root_cert_der(&CERTIFICATE) {
        Ok(config) => config,
        Err(e) => panic!("{:?}", e),
    };
    assert!(config.root_cert_exists());
    assert!(!config.identity_exists());
    assert_eq!(config.root_cert_bytes(), Some(&CERTIFICATE[..]));
}

#[test]
fn a_cut_certificate_is_refused() {
    match NatsClientTlsConfig::new().root_cert_der(&CERTIFICATE[..100]) {
        Err(NatsError::TlsError(_)) => {}
        Err(e) => panic!("{:?}", e),
        Ok(_) => panic!("a cut certificate was kept"),
    }
}

#[test]
fn an_archive_is_kept_under_its_password_only() {
    let config = match NatsClientTlsConfig::new().pkcs12_identity(&ARCHIVE, "secret") {
        Ok(config) => config,
        Err(e) => panic!("{:?}", e),
    };
    assert!(config.identity_exists());
    assert_eq!(config.identity_parts(), Some((&ARCHIVE[..], "secret")));
    match NatsClientTlsConfig::new().pkcs12_identity(&ARCHIVE, "another") {
        Err(NatsError::TlsError(_)) => {}
        Err(e) => panic!("{:?}", e),
        Ok(_) => panic!("the archive was opened with another password"),
    }
    // the certificate alone is no archive
    match NatsClientTlsConfig::default().pkcs12_identity(&CERTIFICATE, "secret") {
        Err(NatsError::TlsError(_)) => {}
        Err(e) => panic!("{:?}", e),
        Ok(_) => panic!("a certificate was kept as an archive"),
    }
}
