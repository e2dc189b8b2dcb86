use transaction_processor::errors::RecordError;
use transaction_processor::runner::{render_accounts, run_processor};
use transaction_processor::Processor;

fn rows(table: &[&[&str]]) -> Vec<Vec<String>> {
    table
        .iter()
        .map(|row| row.iter().map(|cell| cell.to_string()).collect())
        .collect()
}

#[test]
fn deposits_and_withdrawal_yield_final_balance() {
    let mut p = Processor::default();
    let table = rows(&[
        &["type", "client", "tx", "amount"],
        &["deposit", "1", "1", "5.0"],
        &["deposit", "1", "2", "3.0"],
        &["withdrawal", "1", "3", "2.0"],
    ]);
    assert_eq!(run_processor(&mut p, &table), Ok(()));
    let out = render_accounts(&p.accounts());
    assert_eq!(
        out,
        "client,available,held,total,locked\n1,6.0000,0.0000,6.0000,false\n"
    );
}

#[test]
fn chargeback_locks_and_later_deposit_is_skipped() {
    let mut p = Processor::default();
    let table = rows(&[
        &["type", "client", "tx", "amount"],
        &["deposit", "2", "4", "10.0"],
        &["dispute", "2", "4", ""],
        &["chargeback", "2", "4", ""],
        &["deposit", "2", "5", "1.0"],
    ]);
    assert_eq!(run_processor(&mut p, &table), Ok(()));
    let out = render_accounts(&p.accounts());
    assert_eq!(
        out,
        "client,available,held,total,locked\n2,0.0000,0.0000,0.0000,true\n"
    );
}

#[test]
fn malformed_record_aborts_the_run() {
    let mut p = Processor::default();
    let table = rows(&[
        &["type", "client", "tx", "amount"],
        &["deposit", "1", "1", "5.0"],
        &["deposit", "one", "2", "3.0"],
        &["deposit", "1", "3", "4.0"],
    ]);
    let result = run_processor(&mut p, &table);
    assert_eq!(result, Err(RecordError::BadClient));
    // the driver prints nothing when the run aborts; the commands before
    // the malformed record were applied, those after it were not
    let out = render_accounts(&p.accounts());
    assert_eq!(
        out,
        "client,available,held,total,locked\n1,5.0000,0.0000,5.0000,false\n"
    );
}

#[test]
fn malformed_record_causes() {
    let header: &[&str] = &["type", "client", "tx", "amount"];

    let mut p = Processor::default();
    let table = rows(&[header, &["Deposit", "1", "1", "5.0"]]);
    assert_eq!(run_processor(&mut p, &table), Err(RecordError::BadCommandType));

    let mut p = Processor::default();
    let table = rows(&[header, &["deposit", "70000", "1", "5.0"]]);
    assert_eq!(run_processor(&mut p, &table), Err(RecordError::BadClient));

    let mut p = Processor::default();
    let table = rows(&[header, &["deposit", "1", "99999999999999999999", "5.0"]]);
    assert_eq!(
        run_processor(&mut p, &table),
        Err(RecordError::BadTransactionId)
    );

    let mut p = Processor::default();
    let table = rows(&[header, &["deposit", "1", "1", "abc"]]);
    assert_eq!(run_processor(&mut p, &table), Err(RecordError::BadAmount));

    // a record too short to hold its tx cell
    let mut p = Processor::default();
    let table = rows(&[header, &["deposit", "1"]]);
    assert_eq!(run_processor(&mut p, &table), Err(RecordError::MissingField));

    // a header without the tx column makes every data record malformed
    let mut p = Processor::default();
    let table = rows(&[&["type", "client", "amount"], &["deposit", "1", "5.0"]]);
    assert_eq!(run_processor(&mut p, &table), Err(RecordError::MissingField));
}

#[test]
fn header_order_is_flexible_and_amount_optional() {
    let mut p = Processor::default();
    let table = rows(&[
        &["amount", "tx", "client", "type"],
        &["2.5", "1", "9", "deposit"],
        &["", "1", "9", "dispute"],
    ]);
    assert_eq!(run_processor(&mut p, &table), Ok(()));
    let out = render_accounts(&p.accounts());
    assert_eq!(
        out,
        "client,available,held,total,locked\n9,0.0000,2.5000,2.5000,false\n"
    );
}

#[test]
fn missing_amount_is_a_skipped_command_not_an_abort() {
    let mut p = Processor::default();
    let table = rows(&[
        &["type", "client", "tx", "amount"],
        &["deposit", "1", "1", ""],
        &["deposit", "1", "2", "1.0"],
        &["deposit", "1", "3", "-4.0"],
        &["deposit", "1", "4", "10000000001.0"],
    ]);
    // empty, negative and oversized amounts are command-level failures:
    // the run carries on and only the good deposit is applied
    assert_eq!(run_processor(&mut p, &table), Ok(()));
    let out = render_accounts(&p.accounts());
    assert_eq!(
        out,
        "client,available,held,total,locked\n1,1.0000,0.0000,1.0000,false\n"
    );
}

#[test]
fn empty_and_header_only_streams() {
    let mut p = Processor::default();
    let table: Vec<Vec<String>> = Vec::new();
    assert_eq!(run_processor(&mut p, &table), Ok(()));
    assert_eq!(
        render_accounts(&p.accounts()),
        "client,available,held,total,locked\n"
    );

    let mut p = Processor::default();
    let table = rows(&[&["type", "client", "tx", "amount"]]);
    assert_eq!(run_processor(&mut p, &table), Ok(()));
    assert_eq!(
        render_accounts(&p.accounts()),
        "client,available,held,total,locked\n"
    );
}

#[test]
fn output_keeps_first_seen_client_order() {
    let mut p = Processor::default();
    let table = rows(&[
        &["type", "client", "tx", "amount"],
        &["deposit", "42", "1", "1.0"],
        &["deposit", "7", "2", "2.0"],
        &["deposit", "42", "3", "0.5"],
    ]);
    assert_eq!(run_processor(&mut p, &table), Ok(()));
    let out = render_accounts(&p.accounts());
    assert_eq!(
        out,
        "client,available,held,total,locked\n42,1.5000,0.0000,1.5000,false\n7,2.0000,0.0000,2.0000,false\n"
    );
}
